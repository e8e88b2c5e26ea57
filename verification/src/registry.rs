//! The registry: the table of live allocations, the footprint counter and,
//! where it is kept, the set of valid handles.
//!
//! The four operations of the storage interface are the functions
//! [`allocate_oram_storage`], [`release_oram_storage`],
//! [`checkout_oram_storage`] and [`checkin_oram_storage`]. Each takes the
//! registry it works on; there is no state but what a registry holds, and the
//! regions, which the caller reserves and hands to each transfer.
//!
//! No operation fails: what each needs is its `requires`, and
//! [`AllocationRegistry::allocate_refusal`] and its companions test it. A
//! checkout is also offered in its three steps, [`begin_checkout`], the two
//! copies and [`end_transfer`], and a checkin likewise, for a caller that
//! shares the registry between threads and does not want to keep it to
//! itself while items are copied: between the first step and the last the
//! allocation is in its critical section, and every other call on it is
//! refused.

use crate::allocation::{
    lemma_footprint_fits, reservation_check, reservation_refusal, AllocationView,
    UntrustedAllocation,
};
use crate::debug_checks::{add_id, check_id, remove_id, ValidIds};
use crate::error::StorageError;
use crate::footprint::{compute_mem_kb, mem_kb};
use crate::handle::{
    generation_of, handle_from_parts, handle_generation, handle_slot, lemma_handle_parts,
    lemma_parts_of_handle, make_handle, slot_of, SLOT_LIMIT,
};
use vstd::prelude::*;
use vstd::set::fold::{
    is_fun_commutative, lemma_finite_set_induct, lemma_fold_empty, lemma_fold_insert,
};

verus! {

/// A registry as contracts see it.
pub struct RegistryView {
    /// The live allocations, by handle.
    pub allocations: Map<u64, AllocationView>,
    /// The handles that were issued and have been released.
    pub released: Set<u64>,
    /// The number of slots that the table has grown to.
    pub slots: nat,
    /// The footprint counter, in kilobytes.
    pub total_mem_footprint_kb: nat,
    /// The set of valid handles, where the registry keeps one.
    pub valid_ids: Option<Set<u64>>,
}

/// Adds the footprint of the allocation under a handle to a running total.
pub open spec fn add_mem_kb(allocations: Map<u64, AllocationView>) -> spec_fn(nat, u64) -> nat {
    |total: nat, h: u64| total + allocations[h].mem_kb()
}

impl RegistryView {
    /// The footprints of the live allocations together, in kilobytes.
    pub open spec fn live_mem_kb(self) -> nat {
        self.allocations.dom().fold(0nat, add_mem_kb(self.allocations))
    }

    /// What holds of every registry: the live allocations are finitely many
    /// and each is well formed, the footprint counter is the total of their
    /// footprints, no live handle has been released, every handle ever issued
    /// names a slot of the table, and the set of valid handles, where kept, is
    /// the set of live handles.
    pub open spec fn well_formed(self) -> bool {
        &&& self.allocations.dom().finite()
        &&& self.total_mem_footprint_kb == self.live_mem_kb()
        &&& forall|h: u64| #[trigger]
            self.allocations.contains_key(h) ==> self.allocations[h].well_formed()
        &&& forall|h: u64| #[trigger] self.allocations.contains_key(h) ==> !self.released.contains(h)
        &&& forall|h: u64| #[trigger] self.allocations.contains_key(h) ==> handle_slot(h) < self.slots
        &&& forall|h: u64| #[trigger] self.released.contains(h) ==> handle_slot(h) < self.slots
        &&& self.slots <= SLOT_LIMIT
        &&& match self.valid_ids {
            Some(ids) => ids == self.allocations.dom(),
            None => true,
        }
    }

    /// The registry as it is created: nothing allocated, nothing released.
    pub open spec fn empty(debug_checks: bool) -> RegistryView {
        RegistryView {
            allocations: Map::empty(),
            released: Set::empty(),
            slots: 0,
            total_mem_footprint_kb: 0,
            valid_ids: if debug_checks {
                Some(Set::empty())
            } else {
                None
            },
        }
    }

    /// The registry after an allocation of `count` items under `handle`.
    pub open spec fn after_allocate(
        self,
        handle: u64,
        count: nat,
        data_item_size: nat,
        meta_item_size: nat,
    ) -> RegistryView {
        RegistryView {
            allocations: self.allocations.insert(
                handle,
                AllocationView::fresh(count, data_item_size, meta_item_size),
            ),
            released: self.released,
            slots: if handle_slot(handle) < self.slots {
                self.slots
            } else {
                self.slots + 1
            },
            total_mem_footprint_kb: self.total_mem_footprint_kb + mem_kb(
                count,
                data_item_size,
                meta_item_size,
            ),
            valid_ids: match self.valid_ids {
                Some(ids) => Some(ids.insert(handle)),
                None => None,
            },
        }
    }

    /// The registry with the allocation under `handle` replaced.
    pub open spec fn with_allocation(self, handle: u64, allocation: AllocationView) -> RegistryView {
        RegistryView { allocations: self.allocations.insert(handle, allocation), ..self }
    }

    /// Whether the allocation under `handle` may be released, and, if not,
    /// why not: the handle must be live and the critical section free.
    pub open spec fn release_result(self, handle: u64) -> Result<(), StorageError> {
        if !self.allocations.contains_key(handle) {
            Err(StorageError::InvalidId)
        } else if self.allocations[handle].in_critical_section {
            Err(StorageError::ReentrantCriticalSection)
        } else {
            Ok(())
        }
    }

    /// The registry after a release of `handle`: the allocation is taken
    /// away, its footprint is taken off the counter and the handle is marked
    /// as released.
    pub open spec fn after_release(self, handle: u64) -> RegistryView {
        RegistryView {
            allocations: self.allocations.remove(handle),
            released: self.released.insert(handle),
            slots: self.slots,
            total_mem_footprint_kb: (self.total_mem_footprint_kb
                - self.allocations[handle].mem_kb()) as nat,
            valid_ids: match self.valid_ids {
                Some(ids) => Some(ids.remove(handle)),
                None => None,
            },
        }
    }

    /// Whether a checkout on `handle` may begin, and, if not, why not: the
    /// handle must be live, the critical section free and the allocation
    /// `Idle`.
    pub open spec fn begin_checkout_result(self, handle: u64) -> Result<(), StorageError> {
        if !self.allocations.contains_key(handle) {
            Err(StorageError::InvalidId)
        } else {
            self.allocations[handle].begin_checkout_result()
        }
    }

    /// Whether a checkin on `handle` may begin, and, if not, why not: the
    /// handle must be live, the critical section free and the allocation
    /// `CheckedOut`.
    pub open spec fn begin_checkin_result(self, handle: u64) -> Result<(), StorageError> {
        if !self.allocations.contains_key(handle) {
            Err(StorageError::InvalidId)
        } else {
            self.allocations[handle].begin_checkin_result()
        }
    }

    /// Whether a checkout of `indices` from the allocation under `handle` may
    /// be made, out of regions and into buffers of the given lengths, and, if
    /// not, why not. The handle is judged first, then the critical section,
    /// then the state, then the regions, the data buffer, the metadata buffer
    /// and the indices.
    pub open spec fn checkout_result(
        self,
        handle: u64,
        data_region_len: nat,
        meta_region_len: nat,
        indices: Seq<u64>,
        data_len: nat,
        meta_len: nat,
    ) -> Result<(), StorageError> {
        if !self.allocations.contains_key(handle) {
            Err(StorageError::InvalidId)
        } else {
            self.allocations[handle].checkout_result(
                data_region_len,
                meta_region_len,
                indices,
                data_len,
                meta_len,
            )
        }
    }

    /// Whether a checkin of `indices` into the allocation under `handle` may
    /// be made, and, if not, why not, in the same order.
    pub open spec fn checkin_result(
        self,
        handle: u64,
        data_region_len: nat,
        meta_region_len: nat,
        indices: Seq<u64>,
        data_len: nat,
        meta_len: nat,
    ) -> Result<(), StorageError> {
        if !self.allocations.contains_key(handle) {
            Err(StorageError::InvalidId)
        } else {
            self.allocations[handle].checkin_result(
                data_region_len,
                meta_region_len,
                indices,
                data_len,
                meta_len,
            )
        }
    }

    /// The registry while a checkout on `handle` is under way.
    pub open spec fn during_checkout(self, handle: u64) -> RegistryView {
        self.with_allocation(handle, self.allocations[handle].during_checkout())
    }

    /// The registry while a checkin on `handle` is under way.
    pub open spec fn during_checkin(self, handle: u64) -> RegistryView {
        self.with_allocation(handle, self.allocations[handle].during_checkin())
    }

    /// The registry after the call that was under way on `handle` has left
    /// the critical section.
    pub open spec fn after_end(self, handle: u64) -> RegistryView {
        self.with_allocation(handle, self.allocations[handle].after_end())
    }

    /// The registry after a checkout on `handle`: that allocation is
    /// `CheckedOut`, and nothing else has changed.
    pub open spec fn after_checkout(self, handle: u64) -> RegistryView {
        self.with_allocation(handle, self.allocations[handle].after_checkout())
    }

    /// The registry after a checkin on `handle`: that allocation is `Idle`,
    /// and nothing else has changed.
    pub open spec fn after_checkin(self, handle: u64) -> RegistryView {
        self.with_allocation(handle, self.allocations[handle].after_checkin())
    }
}

/// Adding footprints does not depend on the order in which they are added.
proof fn lemma_add_mem_kb_commutes(allocations: Map<u64, AllocationView>)
    ensures
        is_fun_commutative(add_mem_kb(allocations)),
{
    let f = add_mem_kb(allocations);
    assert forall|a1: u64, a2: u64, b: nat| #[trigger] f(f(b, a2), a1) == f(f(b, a1), a2) by {}
}

/// Two maps whose allocations have the same footprints on a finite set of
/// handles give the same total over that set.
proof fn lemma_total_agrees(
    handles: Set<u64>,
    first: Map<u64, AllocationView>,
    second: Map<u64, AllocationView>,
)
    requires
        handles.finite(),
        forall|h: u64| handles.contains(h) ==> first[h].mem_kb() == second[h].mem_kb(),
    ensures
        handles.fold(0nat, add_mem_kb(first)) == handles.fold(0nat, add_mem_kb(second)),
{
    let f = add_mem_kb(first);
    let g = add_mem_kb(second);
    lemma_add_mem_kb_commutes(first);
    lemma_add_mem_kb_commutes(second);
    let agree = |t: Set<u64>|
        (forall|h: u64| t.contains(h) ==> first[h].mem_kb() == second[h].mem_kb()) ==> t.fold(
            0nat,
            f,
        ) == t.fold(0nat, g);
    assert(agree(Set::empty())) by {
        lemma_fold_empty::<u64, nat>(0nat, f);
        lemma_fold_empty::<u64, nat>(0nat, g);
    }
    assert forall|t: Set<u64>, a: u64|
        agree(t) && t.finite() && !t.contains(a) implies #[trigger] agree(t.insert(a)) by {
        if forall|h: u64| t.insert(a).contains(h) ==> first[h].mem_kb() == second[h].mem_kb() {
            assert forall|h: u64| t.contains(h) implies first[h].mem_kb() == second[h].mem_kb() by {
                assert(t.insert(a).contains(h));
            }
            assert(t.insert(a).contains(a));
            lemma_fold_insert(t, 0nat, f, a);
            lemma_fold_insert(t, 0nat, g, a);
        }
    }
    lemma_finite_set_induct(handles, agree);
}

/// A new allocation adds its footprint to the total.
pub proof fn lemma_live_mem_kb_insert(
    allocations: Map<u64, AllocationView>,
    handle: u64,
    allocation: AllocationView,
)
    requires
        allocations.dom().finite(),
        !allocations.contains_key(handle),
    ensures
        allocations.insert(handle, allocation).dom().fold(
            0nat,
            add_mem_kb(allocations.insert(handle, allocation)),
        ) == allocations.dom().fold(0nat, add_mem_kb(allocations)) + allocation.mem_kb(),
{
    let after = allocations.insert(handle, allocation);
    lemma_add_mem_kb_commutes(after);
    lemma_fold_insert(allocations.dom(), 0nat, add_mem_kb(after), handle);
    lemma_total_agrees(allocations.dom(), allocations, after);
}

/// An allocation that is taken away takes its footprint off the total.
pub proof fn lemma_live_mem_kb_remove(allocations: Map<u64, AllocationView>, handle: u64)
    requires
        allocations.dom().finite(),
        allocations.contains_key(handle),
    ensures
        allocations.dom().fold(0nat, add_mem_kb(allocations)) == allocations.remove(
            handle,
        ).dom().fold(0nat, add_mem_kb(allocations.remove(handle))) + allocations[handle].mem_kb(),
{
    let before = allocations.remove(handle);
    assert(before.insert(handle, allocations[handle]) =~= allocations);
    lemma_live_mem_kb_insert(before, handle, allocations[handle]);
}

/// An allocation that changes but keeps its footprint leaves the total as it
/// is.
pub proof fn lemma_live_mem_kb_replace(
    allocations: Map<u64, AllocationView>,
    handle: u64,
    allocation: AllocationView,
)
    requires
        allocations.dom().finite(),
        allocations.contains_key(handle),
        allocation.mem_kb() == allocations[handle].mem_kb(),
    ensures
        allocations.insert(handle, allocation).dom().fold(
            0nat,
            add_mem_kb(allocations.insert(handle, allocation)),
        ) == allocations.dom().fold(0nat, add_mem_kb(allocations)),
{
    let after = allocations.insert(handle, allocation);
    assert(after.dom() =~= allocations.dom());
    lemma_total_agrees(allocations.dom(), allocations, after);
}

/// One entry of the table: at most one allocation, and the generation in
/// which the entry's next handle is, or its current handle was, issued.
struct Slot {
    generation: u32,
    allocation: Option<UntrustedAllocation>,
}

/// The table of allocations, the footprint counter and the handle validator.
pub struct AllocationRegistry {
    /// The table. A handle names the entry at its slot.
    slots: Vec<Slot>,
    /// Total memory reserved by the live allocations, in kilobytes.
    total_mem_footprint_kb: u64,
    /// The set of valid handles, where the registry was made to keep one.
    valid_ids: Option<ValidIds>,
}

/// The footprint of the allocation in an entry, if there is one.
spec fn slot_mem_kb(slot: Slot) -> nat {
    match slot.allocation {
        Some(allocation) => allocation@.mem_kb(),
        None => 0,
    }
}

/// The footprints of the entries' allocations together.
spec fn slots_mem_kb(slots: Seq<Slot>) -> nat
    decreases slots.len(),
{
    if slots.len() == 0 {
        0
    } else {
        slots_mem_kb(slots.drop_last()) + slot_mem_kb(slots.last())
    }
}

/// An entry can take a new allocation: it holds none, and a generation is
/// left for the handle.
spec fn slot_vacant(slot: Slot) -> bool {
    slot.allocation is None && slot.generation < u32::MAX
}

/// An entry's allocation is well formed and a generation is left to release
/// it into.
spec fn slot_well_formed(slot: Slot) -> bool {
    match slot.allocation {
        Some(allocation) => allocation.well_formed() && slot.generation < u32::MAX,
        None => true,
    }
}

/// The entry that `handle` names holds an allocation, in the handle's
/// generation.
spec fn slots_hold(slots: Seq<Slot>, handle: u64) -> bool {
    let slot = handle_slot(handle) as int;
    &&& slot < slots.len()
    &&& slots[slot].generation == handle_generation(handle)
    &&& slots[slot].allocation is Some
}

/// The entry that `handle` names has left the handle's generation behind.
spec fn slots_released(slots: Seq<Slot>, handle: u64) -> bool {
    let slot = handle_slot(handle) as int;
    &&& slot < slots.len()
    &&& handle_generation(handle) < slots[slot].generation
}

/// Replacing one entry changes the total by the difference of the two
/// footprints.
proof fn lemma_slots_mem_kb_update(slots: Seq<Slot>, i: int, slot: Slot)
    requires
        0 <= i < slots.len(),
    ensures
        slots_mem_kb(slots.update(i, slot)) + slot_mem_kb(slots[i]) == slots_mem_kb(slots)
            + slot_mem_kb(slot),
    decreases slots.len(),
{
    let updated = slots.update(i, slot);
    if i == slots.len() - 1 {
        assert(updated.drop_last() =~= slots.drop_last());
    } else {
        assert(updated.drop_last() =~= slots.drop_last().update(i, slot));
        lemma_slots_mem_kb_update(slots.drop_last(), i, slot);
    }
}

/// A new entry adds its footprint to the total.
proof fn lemma_slots_mem_kb_push(slots: Seq<Slot>, slot: Slot)
    ensures
        slots_mem_kb(slots.push(slot)) == slots_mem_kb(slots) + slot_mem_kb(slot),
{
    assert(slots.push(slot).drop_last() =~= slots);
}

/// The live handles that name one of the first `k` entries.
spec fn prefix_handles(slots: Seq<Slot>, k: int) -> Set<u64> {
    Set::new(|h: u64| slots_hold(slots, h) && handle_slot(h) < k)
}

/// The live handles of the first `k` entries are finitely many, and their
/// allocations' footprints together are the footprints of those entries.
proof fn lemma_prefix_total(slots: Seq<Slot>, allocations: Map<u64, AllocationView>, k: int)
    requires
        0 <= k <= slots.len() <= SLOT_LIMIT,
        forall|h: u64|
            slots_hold(slots, h) ==> allocations[h] == slots[handle_slot(h) as int].allocation->0@,
    ensures
        prefix_handles(slots, k).finite(),
        prefix_handles(slots, k).fold(0nat, add_mem_kb(allocations)) == slots_mem_kb(
            slots.take(k),
        ),
    decreases k,
{
    if k == 0 {
        assert(prefix_handles(slots, 0) =~= Set::empty());
        lemma_fold_empty::<u64, nat>(0nat, add_mem_kb(allocations));
    } else {
        let i = k - 1;
        lemma_prefix_total(slots, allocations, i);
        assert(slots.take(k).drop_last() =~= slots.take(i));
        if slots[i].allocation is Some {
            let h = handle_from_parts(slots[i].generation, i as u32);
            lemma_parts_of_handle(slots[i].generation, i as u32);
            assert forall|other: u64| #[trigger]
                prefix_handles(slots, k).contains(other) implies prefix_handles(slots, i).insert(
                h,
            ).contains(other) by {
                lemma_handle_parts(other);
            }
            assert(prefix_handles(slots, k) =~= prefix_handles(slots, i).insert(h));
            lemma_add_mem_kb_commutes(allocations);
            lemma_fold_insert(prefix_handles(slots, i), 0nat, add_mem_kb(allocations), h);
        } else {
            assert(prefix_handles(slots, k) =~= prefix_handles(slots, i));
        }
    }
}

impl View for AllocationRegistry {
    type V = RegistryView;

    closed spec fn view(&self) -> RegistryView {
        RegistryView {
            allocations: Map::new(
                |h: u64| slots_hold(self.slots@, h),
                |h: u64| self.slots@[handle_slot(h) as int].allocation->0@,
            ),
            released: Set::new(|h: u64| slots_released(self.slots@, h)),
            slots: self.slots@.len(),
            total_mem_footprint_kb: self.total_mem_footprint_kb as nat,
            valid_ids: match self.valid_ids {
                Some(ids) => Some(ids@),
                None => None,
            },
        }
    }
}

impl AllocationRegistry {
    /// The invariant of a registry. It is [`RegistryView::well_formed`], told
    /// of the table.
    pub closed spec fn well_formed(&self) -> bool {
        &&& self.slots@.len() <= SLOT_LIMIT
        &&& forall|i: int| 0 <= i < self.slots@.len() ==> slot_well_formed(#[trigger] self.slots@[i])
        &&& self.total_mem_footprint_kb == slots_mem_kb(self.slots@)
        &&& match self.valid_ids {
            Some(ids) => ids@ == self@.allocations.dom(),
            None => true,
        }
    }

    /// A handle can still be issued: an entry of the table is vacant, or the
    /// table can grow.
    pub closed spec fn has_room(&self) -> bool {
        ||| self.slots@.len() < SLOT_LIMIT
        ||| exists|i: int| 0 <= i < self.slots@.len() && slot_vacant(#[trigger] self.slots@[i])
    }

    /// A well-formed registry has a well-formed view.
    pub proof fn lemma_view_well_formed(&self)
        requires
            self.well_formed(),
        ensures
            self@.well_formed(),
    {
        assert forall|h: u64| #[trigger] self@.allocations.contains_key(h) implies {
            &&& self@.allocations[h].well_formed()
            &&& !self@.released.contains(h)
            &&& handle_slot(h) < self@.slots
        } by {
        }
        let slots = self.slots@;
        lemma_prefix_total(slots, self@.allocations, slots.len() as int);
        assert(slots.take(slots.len() as int) =~= slots);
        assert(self@.allocations.dom() =~= prefix_handles(slots, slots.len() as int));
    }

    /// While the table has not grown to its limit, a handle can be issued.
    pub proof fn lemma_room_while_table_can_grow(&self)
        requires
            self@.slots < SLOT_LIMIT,
        ensures
            self.has_room(),
    {
    }

    /// Whether an allocation of `count` items can be made, and, if not, why
    /// not: the regions must be reservable and addressable on this machine,
    /// the footprint counter must be able to hold the new total, and a handle
    /// must be left.
    pub open spec fn allocate_check(&self, count: u64, data_size: u64, meta_size: u64) -> Result<
        (),
        StorageError,
    > {
        let reserved = reservation_check(count as nat, data_size as nat, meta_size as nat);
        if reserved is Err {
            reserved
        } else if count > usize::MAX || data_size > usize::MAX || meta_size > usize::MAX {
            Err(StorageError::ResourceExhausted)
        } else if self@.total_mem_footprint_kb + mem_kb(
            count as nat,
            data_size as nat,
            meta_size as nat,
        ) > u64::MAX {
            Err(StorageError::ResourceExhausted)
        } else if !self.has_room() {
            Err(StorageError::ResourceExhausted)
        } else {
            Ok(())
        }
    }

    /// A registry without allocations. With `debug_checks` it keeps the set of
    /// valid handles and consults it on every checkout and checkin.
    pub fn new(debug_checks: bool) -> (registry: AllocationRegistry)
        ensures
            registry.well_formed(),
            registry@.well_formed(),
            registry@ == RegistryView::empty(debug_checks),
    {
        let registry = AllocationRegistry {
            slots: Vec::new(),
            total_mem_footprint_kb: 0,
            valid_ids: if debug_checks {
                Some(ValidIds::new())
            } else {
                None
            },
        };
        assert(registry@.allocations =~= Map::empty());
        assert(registry@.released =~= Set::empty());
        proof {
            registry.lemma_view_well_formed();
        }
        registry
    }

    /// Total memory reserved by the live allocations, in kilobytes.
    pub fn total_mem_footprint_kb(&self) -> (kb: u64)
        ensures
            kb == self@.total_mem_footprint_kb,
    {
        self.total_mem_footprint_kb
    }

    /// The entry that `id` names, if `id` is live.
    fn lookup(&self, id: u64) -> (slot: Option<usize>)
        ensures
            match slot {
                Some(i) => self@.allocations.contains_key(id) && i == handle_slot(id),
                None => !self@.allocations.contains_key(id),
            },
    {
        let slot = slot_of(id) as usize;
        if slot < self.slots.len() && self.slots[slot].generation == generation_of(id)
            && self.slots[slot].allocation.is_some() {
            Some(slot)
        } else {
            None
        }
    }

    /// Whether `id` names a live allocation.
    pub fn is_valid_id(&self, id: u64) -> (valid: bool)
        ensures
            valid == self@.allocations.contains_key(id),
    {
        self.lookup(id).is_some()
    }

    /// The allocation that `id` names, if `id` is live.
    pub fn allocation(&self, id: u64) -> (allocation: Option<&UntrustedAllocation>)
        ensures
            match allocation {
                Some(a) => self@.allocations.contains_key(id) && a@ == self@.allocations[id],
                None => !self@.allocations.contains_key(id),
            },
    {
        match self.lookup(id) {
            Some(slot) => self.slots[slot].allocation.as_ref(),
            None => None,
        }
    }

    /// The first vacant entry of the table, if there is one.
    fn find_vacant_slot(&self) -> (found: Option<usize>)
        ensures
            match found {
                Some(i) => i < self.slots@.len() && slot_vacant(self.slots@[i as int]),
                None => forall|i: int| 0 <= i < self.slots@.len() ==> !slot_vacant(
                    #[trigger] self.slots@[i],
                ),
            },
    {
        let mut i: usize = 0;
        while i < self.slots.len()
            invariant
                i <= self.slots@.len(),
                forall|j: int| 0 <= j < i ==> !slot_vacant(#[trigger] self.slots@[j]),
            decreases self.slots@.len() - i,
        {
            if self.slots[i].allocation.is_none() && self.slots[i].generation < u32::MAX {
                return Some(i);
            }
            i += 1;
        }
        None
    }

    /// Tests whether [`allocate_oram_storage`] may be called with these
    /// arguments.
    pub fn allocate_refusal(&self, count: u64, data_size: u64, meta_size: u64) -> (r: Result<
        (),
        StorageError,
    >)
        requires
            self.well_formed(),
        ensures
            r == self.allocate_check(count, data_size, meta_size),
    {
        if data_size % 8 != 0 {
            return Err(StorageError::DataItemSizeUnaligned);
        }
        if meta_size % 8 != 0 {
            return Err(StorageError::MetaItemSizeUnaligned);
        }
        let limit = usize::MAX as u64;
        if count > limit || data_size > limit || meta_size > limit {
            return Err(StorageError::ResourceExhausted);
        }
        reservation_refusal(count as usize, data_size as usize, meta_size as usize)?;
        proof {
            lemma_footprint_fits(
                AllocationView::fresh(count as nat, data_size as nat, meta_size as nat),
            );
        }
        let mem_kb = compute_mem_kb(count as usize, data_size as usize, meta_size as usize);
        if self.total_mem_footprint_kb.checked_add(mem_kb).is_none() {
            return Err(StorageError::ResourceExhausted);
        }
        if self.find_vacant_slot().is_none() && self.slots.len() as u64 >= SLOT_LIMIT {
            return Err(StorageError::ResourceExhausted);
        }
        Ok(())
    }

    /// Tests whether [`release_oram_storage`] may be called on `id`.
    pub fn release_refusal(&self, id: u64) -> (r: Result<(), StorageError>)
        ensures
            r == self@.release_result(id),
    {
        match self.allocation(id) {
            None => Err(StorageError::InvalidId),
            Some(allocation) => if allocation.in_critical_section() {
                Err(StorageError::ReentrantCriticalSection)
            } else {
                Ok(())
            },
        }
    }

    /// Tests whether [`checkout_oram_storage`] may be called on `id` with
    /// regions and buffers of the given lengths and this index list.
    pub fn checkout_refusal(
        &self,
        id: u64,
        data_region_len: usize,
        meta_region_len: usize,
        idx: &[u64],
        databuf_len: usize,
        metabuf_len: usize,
    ) -> (r: Result<(), StorageError>)
        requires
            self.well_formed(),
        ensures
            r == self@.checkout_result(
                id,
                data_region_len as nat,
                meta_region_len as nat,
                idx@,
                databuf_len as nat,
                metabuf_len as nat,
            ),
    {
        proof {
            self.lemma_view_well_formed();
        }
        match self.allocation(id) {
            None => Err(StorageError::InvalidId),
            Some(allocation) => allocation.checkout_refusal(
                data_region_len,
                meta_region_len,
                idx,
                databuf_len,
                metabuf_len,
            ),
        }
    }

    /// Tests whether [`checkin_oram_storage`] may be called on `id` with
    /// regions and buffers of the given lengths and this index list.
    pub fn checkin_refusal(
        &self,
        id: u64,
        data_region_len: usize,
        meta_region_len: usize,
        idx: &[u64],
        databuf_len: usize,
        metabuf_len: usize,
    ) -> (r: Result<(), StorageError>)
        requires
            self.well_formed(),
        ensures
            r == self@.checkin_result(
                id,
                data_region_len as nat,
                meta_region_len as nat,
                idx@,
                databuf_len as nat,
                metabuf_len as nat,
            ),
    {
        proof {
            self.lemma_view_well_formed();
        }
        match self.allocation(id) {
            None => Err(StorageError::InvalidId),
            Some(allocation) => allocation.checkin_refusal(
                data_region_len,
                meta_region_len,
                idx,
                databuf_len,
                metabuf_len,
            ),
        }
    }

    /// The entry that `id` names, after the set of valid handles, where it
    /// is kept, has passed `id`.
    fn checked_lookup(&self, id: u64) -> (slot: usize)
        requires
            self.well_formed(),
            self@.allocations.contains_key(id),
        ensures
            slot == handle_slot(id),
            slot < self.slots@.len(),
            self.slots@[slot as int].allocation is Some,
            self.slots@[slot as int].allocation->0@ == self@.allocations[id],
    {
        match &self.valid_ids {
            Some(valid_ids) => { check_id(valid_ids, id); },
            None => {},
        }
        slot_of(id) as usize
    }

    /// What is left to show once the allocation in one entry has been
    /// replaced by one of the same shape.
    proof fn lemma_allocation_replaced(&self, before: &Self, id: u64, after: AllocationView)
        requires
            before.well_formed(),
            before@.allocations.contains_key(id),
            self.slots@.len() == before.slots@.len(),
            forall|i: int|
                0 <= i < self.slots@.len() && i != handle_slot(id) ==> self.slots@[i]
                    == before.slots@[i],
            self.slots@[handle_slot(id) as int].generation
                == before.slots@[handle_slot(id) as int].generation,
            self.slots@[handle_slot(id) as int].allocation is Some,
            self.slots@[handle_slot(id) as int].allocation->0@ == after,
            after.count == before@.allocations[id].count,
            after.data_item_size == before@.allocations[id].data_item_size,
            after.meta_item_size == before@.allocations[id].meta_item_size,
            self.total_mem_footprint_kb == before.total_mem_footprint_kb,
            self.valid_ids == before.valid_ids,
        ensures
            self.well_formed(),
            self@ == before@.with_allocation(id, after),
    {
        let slot = handle_slot(id) as int;
        lemma_slots_mem_kb_update(before.slots@, slot, self.slots@[slot]);
        assert(self.slots@ =~= before.slots@.update(slot, self.slots@[slot]));
        let want = before@.with_allocation(id, after);
        assert(self@.allocations =~= want.allocations);
        assert(self@.released =~= want.released);
        assert(self@.allocations.dom() =~= before@.allocations.dom());
    }
}

/// Makes an allocation of `count` items of `data_size` and `meta_size` bytes,
/// `Idle`, adds its footprint to the counter and returns its handle.
///
/// The handle has never been issued by this registry before. The two regions
/// are the caller's to reserve, with
/// [`UntrustedAllocation::data_region_words`] and
/// [`UntrustedAllocation::meta_region_words`] words.
pub fn allocate_oram_storage(
    registry: &mut AllocationRegistry,
    count: u64,
    data_size: u64,
    meta_size: u64,
) -> (id: u64)
    requires
        old(registry).well_formed(),
        old(registry).allocate_check(count, data_size, meta_size) is Ok,
    ensures
        final(registry).well_formed(),
        final(registry)@.well_formed(),
        !old(registry)@.allocations.contains_key(id),
        !old(registry)@.released.contains(id),
        handle_slot(id) <= old(registry)@.slots,
        final(registry)@ == old(registry)@.after_allocate(
            id,
            count as nat,
            data_size as nat,
            meta_size as nat,
        ),
{
    let allocation = UntrustedAllocation::new(
        count as usize,
        data_size as usize,
        meta_size as usize,
    );
    let mem_kb = allocation.mem_kb();
    let slot = match registry.find_vacant_slot() {
        Some(slot) => slot,
        None => {
            registry.slots.push(Slot { generation: 0, allocation: None });
            proof {
                lemma_slots_mem_kb_push(
                    old(registry).slots@,
                    Slot { generation: 0, allocation: None },
                );
            }
            registry.slots.len() - 1
        },
    };
    let ghost grown = registry.slots@;
    let generation = registry.slots[slot].generation;
    let id = make_handle(generation, slot as u32);
    registry.slots[slot].allocation = Some(allocation);
    registry.total_mem_footprint_kb = registry.total_mem_footprint_kb + mem_kb;
    proof {
        lemma_slots_mem_kb_update(grown, slot as int, registry.slots@[slot as int]);
        lemma_parts_of_handle(generation, slot as u32);
    }
    let ghost after = old(registry)@.after_allocate(
        id,
        count as nat,
        data_size as nat,
        meta_size as nat,
    );
    assert(registry@.allocations =~= after.allocations);
    assert(registry@.released =~= after.released);
    match &mut registry.valid_ids {
        Some(valid_ids) => { add_id(valid_ids, id); },
        None => {},
    }
    proof {
        registry.lemma_view_well_formed();
    }
    id
}

/// Releases the allocation that `id` names: its footprint is taken off the
/// counter, and `id` is never valid again. The two regions are the caller's
/// to give up.
///
/// `id` must name a live allocation whose critical section is free.
pub fn release_oram_storage(registry: &mut AllocationRegistry, id: u64)
    requires
        old(registry).well_formed(),
        old(registry)@.release_result(id) is Ok,
    ensures
        final(registry).well_formed(),
        final(registry)@.well_formed(),
        final(registry)@ == old(registry)@.after_release(id),
{
    let slot = slot_of(id) as usize;
    let entry = &mut registry.slots[slot];
    let mut allocation = entry.allocation.take().unwrap();
    allocation.enter_critical_section();
    let mem_kb = allocation.mem_kb();
    entry.generation = entry.generation + 1;
    proof {
        lemma_slots_mem_kb_update(old(registry).slots@, slot as int, registry.slots@[slot as int]);
    }
    registry.total_mem_footprint_kb = registry.total_mem_footprint_kb - mem_kb;
    let ghost after = old(registry)@.after_release(id);
    assert(registry@.allocations =~= after.allocations);
    assert(registry@.released =~= after.released);
    match &mut registry.valid_ids {
        Some(valid_ids) => { remove_id(valid_ids, id); },
        None => {},
    }
    proof {
        registry.lemma_view_well_formed();
    }
}

/// Enters the critical section of the allocation that `id` names for a
/// checkout, and makes the allocation `CheckedOut`. The items are then moved
/// by [`copy_out`](crate::transfer::copy_out), and [`end_transfer`] leaves the
/// critical section. [`checkout_oram_storage`] does the three in one call.
pub fn begin_checkout(registry: &mut AllocationRegistry, id: u64)
    requires
        old(registry).well_formed(),
        old(registry)@.begin_checkout_result(id) is Ok,
    ensures
        final(registry).well_formed(),
        final(registry)@.well_formed(),
        final(registry)@ == old(registry)@.during_checkout(id),
{
    let slot = registry.checked_lookup(id);
    registry.slots[slot].allocation.as_mut().unwrap().begin_checkout();
    proof {
        registry.lemma_allocation_replaced(
            old(registry),
            id,
            old(registry)@.allocations[id].during_checkout(),
        );
        registry.lemma_view_well_formed();
    }
}

/// Enters the critical section of the allocation that `id` names for a
/// checkin, and makes the allocation `Idle`. The items are then moved by
/// [`copy_in`](crate::transfer::copy_in), and [`end_transfer`] leaves the
/// critical section. [`checkin_oram_storage`] does the three in one call.
pub fn begin_checkin(registry: &mut AllocationRegistry, id: u64)
    requires
        old(registry).well_formed(),
        old(registry)@.begin_checkin_result(id) is Ok,
    ensures
        final(registry).well_formed(),
        final(registry)@.well_formed(),
        final(registry)@ == old(registry)@.during_checkin(id),
{
    let slot = registry.checked_lookup(id);
    registry.slots[slot].allocation.as_mut().unwrap().begin_checkin();
    proof {
        registry.lemma_allocation_replaced(
            old(registry),
            id,
            old(registry)@.allocations[id].during_checkin(),
        );
        registry.lemma_view_well_formed();
    }
}

/// Leaves the critical section of the allocation that `id` names.
pub fn end_transfer(registry: &mut AllocationRegistry, id: u64)
    requires
        old(registry).well_formed(),
        old(registry)@.allocations.contains_key(id),
        old(registry)@.allocations[id].in_critical_section,
    ensures
        final(registry).well_formed(),
        final(registry)@.well_formed(),
        final(registry)@ == old(registry)@.after_end(id),
{
    let slot = slot_of(id) as usize;
    registry.slots[slot].allocation.as_mut().unwrap().end_transfer();
    proof {
        registry.lemma_allocation_replaced(
            old(registry),
            id,
            old(registry)@.allocations[id].after_end(),
        );
        registry.lemma_view_well_formed();
    }
}

/// Copies the data item and the metadata item at each index of `idx`, in the
/// order of `idx`, out of the two regions of the allocation that `id` names
/// into `databuf` and `metabuf`.
///
/// `id` must name a live allocation that is `Idle`, with its critical
/// section free; the allocation is `CheckedOut` afterwards. The regions must
/// be of the allocation's size, each buffer must hold exactly one item per
/// index, and each index must name an item.
pub fn checkout_oram_storage(
    registry: &mut AllocationRegistry,
    id: u64,
    data_region: &[u64],
    meta_region: &[u64],
    idx: &[u64],
    databuf: &mut [u64],
    metabuf: &mut [u64],
)
    requires
        old(registry).well_formed(),
        old(registry)@.checkout_result(
            id,
            data_region@.len(),
            meta_region@.len(),
            idx@,
            old(databuf)@.len(),
            old(metabuf)@.len(),
        ) is Ok,
    ensures
        final(registry).well_formed(),
        final(registry)@.well_formed(),
        final(registry)@ == old(registry)@.after_checkout(id),
        final(databuf)@ == old(registry)@.allocations[id].checkout_data(data_region@, idx@),
        final(metabuf)@ == old(registry)@.allocations[id].checkout_meta(meta_region@, idx@),
{
    proof {
        registry.lemma_view_well_formed();
    }
    let slot = registry.checked_lookup(id);
    registry.slots[slot].allocation.as_mut().unwrap().checkout(data_region, meta_region, idx, databuf, metabuf);
    proof {
        registry.lemma_allocation_replaced(
            old(registry),
            id,
            old(registry)@.allocations[id].after_checkout(),
        );
        registry.lemma_view_well_formed();
    }
}

/// Copies the data item and the metadata item for each index of `idx`, in the
/// order of `idx`, from `databuf` and `metabuf` into the two regions of the
/// allocation that `id` names.
///
/// `id` must name a live allocation that is `CheckedOut`, with its critical
/// section free; the allocation is `Idle` afterwards. The regions must be of
/// the allocation's size, each buffer must hold exactly one item per index,
/// and each index must name an item.
pub fn checkin_oram_storage(
    registry: &mut AllocationRegistry,
    id: u64,
    data_region: &mut [u64],
    meta_region: &mut [u64],
    idx: &[u64],
    databuf: &[u64],
    metabuf: &[u64],
)
    requires
        old(registry).well_formed(),
        old(registry)@.checkin_result(
            id,
            old(data_region)@.len(),
            old(meta_region)@.len(),
            idx@,
            databuf@.len(),
            metabuf@.len(),
        ) is Ok,
    ensures
        final(registry).well_formed(),
        final(registry)@.well_formed(),
        final(registry)@ == old(registry)@.after_checkin(id),
        final(data_region)@ == old(registry)@.allocations[id].checkin_data(
            old(data_region)@,
            idx@,
            databuf@,
        ),
        final(meta_region)@ == old(registry)@.allocations[id].checkin_meta(
            old(meta_region)@,
            idx@,
            metabuf@,
        ),
{
    proof {
        registry.lemma_view_well_formed();
    }
    let slot = registry.checked_lookup(id);
    registry.slots[slot].allocation.as_mut().unwrap().checkin(data_region, meta_region, idx, databuf, metabuf);
    proof {
        registry.lemma_allocation_replaced(
            old(registry),
            id,
            old(registry)@.allocations[id].after_checkin(),
        );
        registry.lemma_view_well_formed();
    }
}

} // verus!
