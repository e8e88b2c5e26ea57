//! One allocation: the shape of its two regions, and the protocol by which
//! batches of items are checked out of them and checked back in.
//!
//! The regions themselves belong to whoever reserved them; every transfer is
//! handed the two regions as slices, and they must be of the allocation's
//! size. An allocation is `Idle` or `CheckedOut`. A checkout needs it `Idle`
//! and a checkin needs it `CheckedOut`, so the two alternate. Each call holds
//! the allocation's critical section for its own duration and needs to find it
//! free.
//!
//! No call fails. What a call needs is its `requires`; the `_refusal`
//! functions test it and name the first need that is not met.

use crate::error::StorageError;
use crate::footprint::{compute_mem_kb, mem_kb};
use crate::transfer::{
    all_in_bounds, copy_in, copy_out, gathered, indices_in_bounds, lemma_in_bounds_items_within,
    scattered,
};
use vstd::prelude::*;

verus! {

/// Bytes in a machine word, the unit in which transfer buffers are measured.
pub const WORD_SIZE: usize = 8;

/// An allocation as contracts see it.
pub struct AllocationView {
    /// Number of items, in each of the two regions.
    pub count: nat,
    /// Bytes in one data item.
    pub data_item_size: nat,
    /// Bytes in one metadata item.
    pub meta_item_size: nat,
    /// Whether a call holds the critical section.
    pub in_critical_section: bool,
    /// Whether a checkout is waiting for its checkin.
    pub checked_out: bool,
}

/// Whether an allocation of `count` items of the two sizes can be made, and,
/// if not, why not. An unaligned data item size is named before an unaligned
/// metadata item size, and both before a region that is too large to be
/// addressed.
pub open spec fn reservation_check(count: nat, data_item_size: nat, meta_item_size: nat) -> Result<
    (),
    StorageError,
> {
    if data_item_size % 8 != 0 {
        Err(StorageError::DataItemSizeUnaligned)
    } else if meta_item_size % 8 != 0 {
        Err(StorageError::MetaItemSizeUnaligned)
    } else if count * data_item_size > isize::MAX || count * meta_item_size > isize::MAX {
        Err(StorageError::ResourceExhausted)
    } else {
        Ok(())
    }
}

impl AllocationView {
    /// Words in one data item.
    pub open spec fn data_item_words(self) -> nat {
        self.data_item_size / 8
    }

    /// Words in one metadata item.
    pub open spec fn meta_item_words(self) -> nat {
        self.meta_item_size / 8
    }

    /// Words in the data region.
    pub open spec fn data_region_words(self) -> nat {
        self.count * self.data_item_words()
    }

    /// Words in the metadata region.
    pub open spec fn meta_region_words(self) -> nat {
        self.count * self.meta_item_words()
    }

    /// The invariant of an allocation: both item sizes are whole words and
    /// each region can be addressed.
    pub open spec fn well_formed(self) -> bool {
        reservation_check(self.count, self.data_item_size, self.meta_item_size) is Ok
    }

    /// The allocation as it is created: `Idle`, the critical section free.
    pub open spec fn fresh(count: nat, data_item_size: nat, meta_item_size: nat) -> AllocationView {
        AllocationView {
            count,
            data_item_size,
            meta_item_size,
            in_critical_section: false,
            checked_out: false,
        }
    }

    /// The footprint of the allocation, in kilobytes.
    pub open spec fn mem_kb(self) -> nat {
        mem_kb(self.count, self.data_item_size, self.meta_item_size)
    }

    /// Whether the regions, the buffers and the index list of a transfer fit
    /// the allocation, and, if not, why not. The regions are judged first,
    /// then the data buffer, then the metadata buffer, then the indices.
    pub open spec fn transfer_check(
        self,
        data_region_len: nat,
        meta_region_len: nat,
        indices: Seq<u64>,
        data_len: nat,
        meta_len: nat,
    ) -> Result<(), StorageError> {
        if data_region_len != self.data_region_words() || meta_region_len
            != self.meta_region_words() {
            Err(StorageError::RegionLengthMismatch)
        } else if data_len != indices.len() * self.data_item_words() {
            Err(StorageError::DataLengthMismatch)
        } else if meta_len != indices.len() * self.meta_item_words() {
            Err(StorageError::MetaLengthMismatch)
        } else if !indices_in_bounds(indices, self.count) {
            Err(StorageError::IndexOutOfBounds)
        } else {
            Ok(())
        }
    }

    /// Whether a checkout may begin: the critical section must be free and the
    /// allocation `Idle`.
    pub open spec fn begin_checkout_result(self) -> Result<(), StorageError> {
        if self.in_critical_section {
            Err(StorageError::ReentrantCriticalSection)
        } else if self.checked_out {
            Err(StorageError::IllegalCheckout)
        } else {
            Ok(())
        }
    }

    /// Whether a checkin may begin: the critical section must be free and the
    /// allocation `CheckedOut`.
    pub open spec fn begin_checkin_result(self) -> Result<(), StorageError> {
        if self.in_critical_section {
            Err(StorageError::ReentrantCriticalSection)
        } else if !self.checked_out {
            Err(StorageError::IllegalCheckin)
        } else {
            Ok(())
        }
    }

    /// Whether a checkout of `indices` out of regions of the given lengths,
    /// into buffers of the given lengths, may be made, and, if not, why not:
    /// what [`Self::begin_checkout_result`] names comes first, then what
    /// [`Self::transfer_check`] names.
    pub open spec fn checkout_result(
        self,
        data_region_len: nat,
        meta_region_len: nat,
        indices: Seq<u64>,
        data_len: nat,
        meta_len: nat,
    ) -> Result<(), StorageError> {
        if self.begin_checkout_result() is Err {
            self.begin_checkout_result()
        } else {
            self.transfer_check(data_region_len, meta_region_len, indices, data_len, meta_len)
        }
    }

    /// Whether a checkin of `indices` into regions of the given lengths, from
    /// buffers of the given lengths, may be made, and, if not, why not.
    pub open spec fn checkin_result(
        self,
        data_region_len: nat,
        meta_region_len: nat,
        indices: Seq<u64>,
        data_len: nat,
        meta_len: nat,
    ) -> Result<(), StorageError> {
        if self.begin_checkin_result() is Err {
            self.begin_checkin_result()
        } else {
            self.transfer_check(data_region_len, meta_region_len, indices, data_len, meta_len)
        }
    }

    /// The allocation while a checkout is under way: in the critical section,
    /// and `CheckedOut` already.
    pub open spec fn during_checkout(self) -> AllocationView {
        AllocationView { in_critical_section: true, checked_out: true, ..self }
    }

    /// The allocation while a checkin is under way: in the critical section,
    /// and `Idle` already.
    pub open spec fn during_checkin(self) -> AllocationView {
        AllocationView { in_critical_section: true, checked_out: false, ..self }
    }

    /// The allocation after the call that was under way has left the critical
    /// section.
    pub open spec fn after_end(self) -> AllocationView {
        AllocationView { in_critical_section: false, ..self }
    }

    /// The allocation after a checkout: `CheckedOut`, the critical section
    /// free.
    pub open spec fn after_checkout(self) -> AllocationView {
        self.during_checkout().after_end()
    }

    /// The allocation after a checkin: `Idle`, the critical section free.
    pub open spec fn after_checkin(self) -> AllocationView {
        self.during_checkin().after_end()
    }

    /// The data buffer that a checkout of `indices` fills from `data_region`.
    pub open spec fn checkout_data(self, data_region: Seq<u64>, indices: Seq<u64>) -> Seq<u64> {
        gathered(data_region, indices, self.data_item_words())
    }

    /// The metadata buffer that a checkout of `indices` fills from
    /// `meta_region`.
    pub open spec fn checkout_meta(self, meta_region: Seq<u64>, indices: Seq<u64>) -> Seq<u64> {
        gathered(meta_region, indices, self.meta_item_words())
    }

    /// The data region after a checkin of `indices` from `data`.
    pub open spec fn checkin_data(
        self,
        data_region: Seq<u64>,
        indices: Seq<u64>,
        data: Seq<u64>,
    ) -> Seq<u64> {
        scattered(data_region, indices, self.data_item_words(), data)
    }

    /// The metadata region after a checkin of `indices` from `meta`.
    pub open spec fn checkin_meta(
        self,
        meta_region: Seq<u64>,
        indices: Seq<u64>,
        meta: Seq<u64>,
    ) -> Seq<u64> {
        scattered(meta_region, indices, self.meta_item_words(), meta)
    }
}

/// What is held in connection with one allocation request: the shape of the
/// two regions and the state of the protocol.
pub struct UntrustedAllocation {
    /// The number of data and metadata items stored in this allocation.
    count: usize,
    /// The size of a data item in bytes.
    data_item_size: usize,
    /// The size of a metadata item in bytes.
    meta_item_size: usize,
    /// Set while a call is in the critical section. It is tested on entry and
    /// never waited on: finding it set is a protocol violation.
    critical_section_flag: bool,
    /// Set while there is an active checkout.
    checkout_flag: bool,
}

impl View for UntrustedAllocation {
    type V = AllocationView;

    closed spec fn view(&self) -> AllocationView {
        AllocationView {
            count: self.count as nat,
            data_item_size: self.data_item_size as nat,
            meta_item_size: self.meta_item_size as nat,
            in_critical_section: self.critical_section_flag,
            checked_out: self.checkout_flag,
        }
    }
}

/// A well-formed allocation's footprint is no more than `2^54` kilobytes, and
/// the words of each of its regions are the region's bytes.
pub proof fn lemma_footprint_fits(a: AllocationView)
    requires
        a.well_formed(),
    ensures
        a.mem_kb() <= 0x40_0000_0000_0000,
        a.data_region_words() * 8 == a.count * a.data_item_size,
        a.meta_region_words() * 8 == a.count * a.meta_item_size,
{
    assert(a.count * (a.data_item_size + a.meta_item_size) == a.count * a.data_item_size + a.count
        * a.meta_item_size) by (nonlinear_arith);
    lemma_bytes_to_words(a.count as int, a.data_item_size as int);
    lemma_bytes_to_words(a.count as int, a.meta_item_size as int);
}

/// Tests whether an allocation of `count` items of the two sizes can be made.
pub fn reservation_refusal(count: usize, data_item_size: usize, meta_item_size: usize) -> (r: Result<
    (),
    StorageError,
>)
    ensures
        r == reservation_check(count as nat, data_item_size as nat, meta_item_size as nat),
{
    if data_item_size % WORD_SIZE != 0 {
        return Err(StorageError::DataItemSizeUnaligned);
    }
    if meta_item_size % WORD_SIZE != 0 {
        return Err(StorageError::MetaItemSizeUnaligned);
    }
    let max_bytes: usize = isize::MAX as usize;
    match count.checked_mul(data_item_size) {
        Some(bytes) if bytes <= max_bytes => {},
        _ => { return Err(StorageError::ResourceExhausted); },
    }
    match count.checked_mul(meta_item_size) {
        Some(bytes) if bytes <= max_bytes => {},
        _ => { return Err(StorageError::ResourceExhausted); },
    }
    Ok(())
}

impl UntrustedAllocation {
    /// The invariant of an allocation.
    pub open spec fn well_formed(&self) -> bool {
        self@.well_formed()
    }

    /// Creates the allocation for `count` items, `Idle`, the critical section
    /// free.
    ///
    /// Data and metadata item sizes must be divisible by 8, and each region
    /// must be small enough to be addressed.
    pub fn new(count: usize, data_item_size: usize, meta_item_size: usize) -> (allocation: Self)
        requires
            reservation_check(count as nat, data_item_size as nat, meta_item_size as nat) is Ok,
        ensures
            allocation@ == AllocationView::fresh(
                count as nat,
                data_item_size as nat,
                meta_item_size as nat,
            ),
            allocation.well_formed(),
    {
        UntrustedAllocation {
            count,
            data_item_size,
            meta_item_size,
            critical_section_flag: false,
            checkout_flag: false,
        }
    }

    /// The number of items in each region.
    pub fn count(&self) -> (count: usize)
        ensures
            count == self@.count,
    {
        self.count
    }

    /// The size of a data item in bytes.
    pub fn data_item_size(&self) -> (size: usize)
        ensures
            size == self@.data_item_size,
    {
        self.data_item_size
    }

    /// The size of a metadata item in bytes.
    pub fn meta_item_size(&self) -> (size: usize)
        ensures
            size == self@.meta_item_size,
    {
        self.meta_item_size
    }

    /// The number of words that the data region must have.
    pub fn data_region_words(&self) -> (words: usize)
        requires
            self.well_formed(),
        ensures
            words == self@.data_region_words(),
    {
        proof {
            lemma_footprint_fits(self@);
        }
        self.count * (self.data_item_size / WORD_SIZE)
    }

    /// The number of words that the metadata region must have.
    pub fn meta_region_words(&self) -> (words: usize)
        requires
            self.well_formed(),
        ensures
            words == self@.meta_region_words(),
    {
        proof {
            lemma_footprint_fits(self@);
        }
        self.count * (self.meta_item_size / WORD_SIZE)
    }

    /// Whether a checkout is waiting for its checkin.
    pub fn is_checked_out(&self) -> (checked_out: bool)
        ensures
            checked_out == self@.checked_out,
    {
        self.checkout_flag
    }

    /// Whether the critical section is held.
    pub fn in_critical_section(&self) -> (held: bool)
        ensures
            held == self@.in_critical_section,
    {
        self.critical_section_flag
    }

    /// The footprint of the allocation, in kilobytes.
    pub fn mem_kb(&self) -> (kb: u64)
        requires
            self.well_formed(),
        ensures
            kb == self@.mem_kb(),
    {
        proof {
            lemma_footprint_fits(self@);
        }
        compute_mem_kb(self.count, self.data_item_size, self.meta_item_size)
    }

    /// Tests whether regions and buffers of the given lengths and the index
    /// list fit the allocation.
    pub fn transfer_refusal(
        &self,
        data_region_len: usize,
        meta_region_len: usize,
        indices: &[u64],
        data_len: usize,
        meta_len: usize,
    ) -> (r: Result<(), StorageError>)
        requires
            self.well_formed(),
        ensures
            r == self@.transfer_check(
                data_region_len as nat,
                meta_region_len as nat,
                indices@,
                data_len as nat,
                meta_len as nat,
            ),
    {
        if data_region_len != self.data_region_words() || meta_region_len
            != self.meta_region_words() {
            return Err(StorageError::RegionLengthMismatch);
        }
        // The size of a data item, and of a metadata item, measured in words.
        let data_copy_size = self.data_item_size / WORD_SIZE;
        let meta_copy_size = self.meta_item_size / WORD_SIZE;
        match indices.len().checked_mul(data_copy_size) {
            Some(len) if len == data_len => {},
            _ => { return Err(StorageError::DataLengthMismatch); },
        }
        match indices.len().checked_mul(meta_copy_size) {
            Some(len) if len == meta_len => {},
            _ => { return Err(StorageError::MetaLengthMismatch); },
        }
        if !all_in_bounds(indices, self.count) {
            return Err(StorageError::IndexOutOfBounds);
        }
        Ok(())
    }

    /// Tests whether a checkout may begin.
    pub fn begin_checkout_refusal(&self) -> (r: Result<(), StorageError>)
        ensures
            r == self@.begin_checkout_result(),
    {
        if self.critical_section_flag {
            Err(StorageError::ReentrantCriticalSection)
        } else if self.checkout_flag {
            Err(StorageError::IllegalCheckout)
        } else {
            Ok(())
        }
    }

    /// Tests whether a checkin may begin.
    pub fn begin_checkin_refusal(&self) -> (r: Result<(), StorageError>)
        ensures
            r == self@.begin_checkin_result(),
    {
        if self.critical_section_flag {
            Err(StorageError::ReentrantCriticalSection)
        } else if !self.checkout_flag {
            Err(StorageError::IllegalCheckin)
        } else {
            Ok(())
        }
    }

    /// Tests whether [`Self::checkout`] may be called with regions and buffers
    /// of the given lengths and this index list.
    pub fn checkout_refusal(
        &self,
        data_region_len: usize,
        meta_region_len: usize,
        indices: &[u64],
        data_len: usize,
        meta_len: usize,
    ) -> (r: Result<(), StorageError>)
        requires
            self.well_formed(),
        ensures
            r == self@.checkout_result(
                data_region_len as nat,
                meta_region_len as nat,
                indices@,
                data_len as nat,
                meta_len as nat,
            ),
    {
        self.begin_checkout_refusal()?;
        self.transfer_refusal(data_region_len, meta_region_len, indices, data_len, meta_len)
    }

    /// Tests whether [`Self::checkin`] may be called with regions and buffers
    /// of the given lengths and this index list.
    pub fn checkin_refusal(
        &self,
        data_region_len: usize,
        meta_region_len: usize,
        indices: &[u64],
        data_len: usize,
        meta_len: usize,
    ) -> (r: Result<(), StorageError>)
        requires
            self.well_formed(),
        ensures
            r == self@.checkin_result(
                data_region_len as nat,
                meta_region_len as nat,
                indices@,
                data_len as nat,
                meta_len as nat,
            ),
    {
        self.begin_checkin_refusal()?;
        self.transfer_refusal(data_region_len, meta_region_len, indices, data_len, meta_len)
    }

    /// Enters the critical section, which must be free.
    pub fn enter_critical_section(&mut self)
        requires
            !old(self)@.in_critical_section,
        ensures
            final(self)@ == (AllocationView { in_critical_section: true, ..old(self)@ }),
    {
        self.critical_section_flag = true;
    }

    /// Enters the critical section for a checkout and makes the allocation
    /// `CheckedOut`.
    pub fn begin_checkout(&mut self)
        requires
            old(self)@.begin_checkout_result() is Ok,
        ensures
            final(self)@ == old(self)@.during_checkout(),
    {
        self.enter_critical_section();
        self.checkout_flag = true;
    }

    /// Enters the critical section for a checkin and makes the allocation
    /// `Idle`.
    pub fn begin_checkin(&mut self)
        requires
            old(self)@.begin_checkin_result() is Ok,
        ensures
            final(self)@ == old(self)@.during_checkin(),
    {
        self.enter_critical_section();
        self.checkout_flag = false;
    }

    /// Leaves the critical section.
    pub fn end_transfer(&mut self)
        requires
            old(self)@.in_critical_section,
        ensures
            final(self)@ == old(self)@.after_end(),
    {
        self.critical_section_flag = false;
    }

    /// Copies the data item and the metadata item at each index out of the
    /// two regions into the two buffers, in the order of the index list.
    ///
    /// The allocation must be `Idle`, with the critical section free; it is
    /// `CheckedOut` afterwards. The regions must be of the allocation's size,
    /// each buffer must hold exactly one item per index, and each index must
    /// name an item.
    pub fn checkout(
        &mut self,
        data_region: &[u64],
        meta_region: &[u64],
        indices: &[u64],
        databuf: &mut [u64],
        metabuf: &mut [u64],
    )
        requires
            old(self).well_formed(),
            old(self)@.checkout_result(
                data_region@.len(),
                meta_region@.len(),
                indices@,
                old(databuf)@.len(),
                old(metabuf)@.len(),
            ) is Ok,
        ensures
            final(self).well_formed(),
            final(self)@ == old(self)@.after_checkout(),
            final(databuf)@ == old(self)@.checkout_data(data_region@, indices@),
            final(metabuf)@ == old(self)@.checkout_meta(meta_region@, indices@),
    {
        self.begin_checkout();
        proof {
            lemma_in_bounds_items_within(indices@, self@.count, self@.data_item_words());
            lemma_in_bounds_items_within(indices@, self@.count, self@.meta_item_words());
        }
        copy_out(data_region, self.data_item_size / WORD_SIZE, indices, databuf);
        copy_out(meta_region, self.meta_item_size / WORD_SIZE, indices, metabuf);
        self.end_transfer();
    }

    /// Copies the data item and the metadata item for each index from the two
    /// buffers into the two regions, in the order of the index list.
    ///
    /// The allocation must be `CheckedOut`, with the critical section free;
    /// it is `Idle` afterwards. The regions must be of the allocation's size,
    /// each buffer must hold exactly one item per index, and each index must
    /// name an item.
    pub fn checkin(
        &mut self,
        data_region: &mut [u64],
        meta_region: &mut [u64],
        indices: &[u64],
        databuf: &[u64],
        metabuf: &[u64],
    )
        requires
            old(self).well_formed(),
            old(self)@.checkin_result(
                old(data_region)@.len(),
                old(meta_region)@.len(),
                indices@,
                databuf@.len(),
                metabuf@.len(),
            ) is Ok,
        ensures
            final(self).well_formed(),
            final(self)@ == old(self)@.after_checkin(),
            final(data_region)@ == old(self)@.checkin_data(
                old(data_region)@,
                indices@,
                databuf@,
            ),
            final(meta_region)@ == old(self)@.checkin_meta(
                old(meta_region)@,
                indices@,
                metabuf@,
            ),
    {
        self.begin_checkin();
        proof {
            lemma_in_bounds_items_within(indices@, self@.count, self@.data_item_words());
            lemma_in_bounds_items_within(indices@, self@.count, self@.meta_item_words());
        }
        copy_in(data_region, self.data_item_size / WORD_SIZE, indices, databuf);
        copy_in(meta_region, self.meta_item_size / WORD_SIZE, indices, metabuf);
        self.end_transfer();
    }
}

/// `count` items of `item_size` bytes, where that is whole words, are `count`
/// items of `item_size / 8` words.
proof fn lemma_bytes_to_words(count: int, item_size: int)
    by (nonlinear_arith)
    requires
        0 <= count,
        0 <= item_size,
        item_size % 8 == 0,
    ensures
        (count * item_size) / 8 == count * (item_size / 8),
        count * (item_size / 8) * 8 == count * item_size,
{
}

} // verus!
