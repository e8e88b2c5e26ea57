use oram_storage::allocation::{reservation_refusal, UntrustedAllocation, WORD_SIZE};
use oram_storage::error::{ErrorClass, StorageError};
use oram_storage::registry::{
    allocate_oram_storage, begin_checkin, begin_checkout, checkin_oram_storage,
    checkout_oram_storage, end_transfer, release_oram_storage, AllocationRegistry,
};
use oram_storage::transfer::{copy_in, copy_out};

/// 4 items of 2 data words and 1 metadata word each: regions of 8 and 4 words.
fn small(registry: &mut AllocationRegistry) -> (u64, Vec<u64>, Vec<u64>) {
    assert_eq!(registry.allocate_refusal(4, 16, 8), Ok(()));
    let id = allocate_oram_storage(registry, 4, 16, 8);
    (id, vec![0u64; 8], vec![0u64; 4])
}

fn checked_out(registry: &mut AllocationRegistry) -> (u64, Vec<u64>, Vec<u64>) {
    let (h, data, meta) = small(registry);
    let mut d = [0u64; 2];
    let mut m = [0u64; 1];
    assert_eq!(registry.checkout_refusal(h, 8, 4, &[1], 2, 1), Ok(()));
    checkout_oram_storage(registry, h, &data, &meta, &[1], &mut d, &mut m);
    (h, data, meta)
}

#[test]
fn checkout_twice_is_an_illegal_checkout() {
    let mut registry = AllocationRegistry::new(true);
    let (h, _data, _meta) = checked_out(&mut registry);
    assert_eq!(
        registry.checkout_refusal(h, 8, 4, &[1], 2, 1),
        Err(StorageError::IllegalCheckout)
    );
    // The state is judged before the buffers.
    assert_eq!(
        registry.checkout_refusal(h, 8, 4, &[1], 3, 7),
        Err(StorageError::IllegalCheckout)
    );
    assert!(registry.allocation(h).unwrap().is_checked_out());
}

#[test]
fn checkin_without_checkout_is_an_illegal_checkin() {
    let mut registry = AllocationRegistry::new(true);
    let (h, _data, _meta) = small(&mut registry);
    assert_eq!(registry.checkin_refusal(h, 8, 4, &[1], 2, 1), Err(StorageError::IllegalCheckin));
    assert_eq!(registry.checkin_refusal(h, 8, 4, &[9], 0, 5), Err(StorageError::IllegalCheckin));
}

#[test]
fn checkin_twice_is_an_illegal_checkin() {
    let mut registry = AllocationRegistry::new(false);
    let (h, mut data, mut meta) = checked_out(&mut registry);
    assert_eq!(registry.checkin_refusal(h, 8, 4, &[1], 2, 1), Ok(()));
    checkin_oram_storage(&mut registry, h, &mut data, &mut meta, &[1], &[5, 6], &[7]);
    assert_eq!(registry.checkin_refusal(h, 8, 4, &[1], 2, 1), Err(StorageError::IllegalCheckin));
    assert_eq!(data, [0, 0, 5, 6, 0, 0, 0, 0]);
    assert_eq!(meta, [0, 7, 0, 0]);
}

#[test]
fn checkout_and_checkin_alternate() {
    let mut registry = AllocationRegistry::new(true);
    let (h, mut data, mut meta) = small(&mut registry);
    let mut d = [0u64; 2];
    let mut m = [0u64; 1];
    for round in 0..4u64 {
        assert_eq!(registry.checkout_refusal(h, 8, 4, &[2], 2, 1), Ok(()));
        assert_eq!(
            registry.checkin_refusal(h, 8, 4, &[2], 2, 1),
            Err(StorageError::IllegalCheckin)
        );
        checkout_oram_storage(&mut registry, h, &data, &meta, &[2], &mut d, &mut m);
        assert!(registry.allocation(h).unwrap().is_checked_out());
        assert!(!registry.allocation(h).unwrap().in_critical_section());
        assert_eq!(d, [round, round]);
        assert_eq!(m, [round]);

        assert_eq!(registry.checkin_refusal(h, 8, 4, &[2], 2, 1), Ok(()));
        assert_eq!(
            registry.checkout_refusal(h, 8, 4, &[2], 2, 1),
            Err(StorageError::IllegalCheckout)
        );
        let next = [round + 1, round + 1];
        checkin_oram_storage(&mut registry, h, &mut data, &mut meta, &[2], &next, &next[..1]);
        assert!(!registry.allocation(h).unwrap().is_checked_out());
        assert!(!registry.allocation(h).unwrap().in_critical_section());
    }
}

#[test]
fn wrong_buffer_lengths_are_refused() {
    let mut registry = AllocationRegistry::new(true);
    let (h, _data, _meta) = small(&mut registry);
    assert_eq!(
        registry.checkout_refusal(h, 8, 4, &[1], 3, 1),
        Err(StorageError::DataLengthMismatch)
    );
    assert_eq!(
        registry.checkout_refusal(h, 8, 4, &[1, 2], 4, 3),
        Err(StorageError::MetaLengthMismatch)
    );
    // The data buffer is judged before the metadata buffer.
    assert_eq!(
        registry.checkout_refusal(h, 8, 4, &[1], 1, 5),
        Err(StorageError::DataLengthMismatch)
    );
    assert_eq!(
        registry.checkout_refusal(h, 8, 4, &[], 1, 0),
        Err(StorageError::DataLengthMismatch)
    );
    assert_eq!(registry.checkout_refusal(h, 8, 4, &[], 0, 0), Ok(()));

    let mut registry = AllocationRegistry::new(true);
    let (h, _data, _meta) = checked_out(&mut registry);
    assert_eq!(
        registry.checkin_refusal(h, 8, 4, &[1], 1, 1),
        Err(StorageError::DataLengthMismatch)
    );
    assert_eq!(
        registry.checkin_refusal(h, 8, 4, &[1], 2, 0),
        Err(StorageError::MetaLengthMismatch)
    );
}

#[test]
fn a_short_metadata_buffer_is_refused_before_anything_is_copied() {
    // 2 items of 8 bytes; data buffer [7, 7] fits, metadata buffer [9] is
    // one word short.
    let mut registry = AllocationRegistry::new(true);
    assert_eq!(registry.allocate_refusal(2, 8, 8), Ok(()));
    let h = allocate_oram_storage(&mut registry, 2, 8, 8);
    let mut data = vec![0u64; 2];
    let mut meta = vec![0u64; 2];
    let databuf = [7u64, 7];
    let metabuf = [9u64];
    assert_eq!(
        registry.checkout_refusal(h, 2, 2, &[0, 1], databuf.len(), metabuf.len()),
        Err(StorageError::MetaLengthMismatch)
    );
    assert!(!registry.allocation(h).unwrap().is_checked_out());

    let mut d = [0u64; 2];
    let mut m = [0u64; 2];
    assert_eq!(registry.checkout_refusal(h, 2, 2, &[0, 1], 2, 2), Ok(()));
    checkout_oram_storage(&mut registry, h, &data, &meta, &[0, 1], &mut d, &mut m);
    assert_eq!(
        registry.checkin_refusal(h, 2, 2, &[0, 1], databuf.len(), metabuf.len()),
        Err(StorageError::MetaLengthMismatch)
    );
    assert!(registry.allocation(h).unwrap().is_checked_out());
    assert_eq!(registry.checkin_refusal(h, 2, 2, &[0, 1], 2, 2), Ok(()));
    checkin_oram_storage(&mut registry, h, &mut data, &mut meta, &[0, 1], &databuf, &[9, 9]);
    assert_eq!(data, [7, 7]);
    assert_eq!(meta, [9, 9]);
}

#[test]
fn indices_out_of_bounds_are_refused() {
    let mut registry = AllocationRegistry::new(true);
    let (h, _data, _meta) = small(&mut registry);
    assert_eq!(
        registry.checkout_refusal(h, 8, 4, &[0, 4], 4, 2),
        Err(StorageError::IndexOutOfBounds)
    );
    assert_eq!(
        registry.checkout_refusal(h, 8, 4, &[u64::MAX], 2, 1),
        Err(StorageError::IndexOutOfBounds)
    );
    // The last item is in bounds.
    assert_eq!(registry.checkout_refusal(h, 8, 4, &[3], 2, 1), Ok(()));

    let mut registry = AllocationRegistry::new(true);
    let (h, _data, _meta) = checked_out(&mut registry);
    assert_eq!(
        registry.checkin_refusal(h, 8, 4, &[4], 2, 1),
        Err(StorageError::IndexOutOfBounds)
    );
}

#[test]
fn regions_of_another_size_are_refused() {
    let mut registry = AllocationRegistry::new(true);
    let (h, _data, _meta) = small(&mut registry);
    assert_eq!(
        registry.checkout_refusal(h, 7, 4, &[1], 2, 1),
        Err(StorageError::RegionLengthMismatch)
    );
    assert_eq!(
        registry.checkout_refusal(h, 8, 5, &[1], 2, 1),
        Err(StorageError::RegionLengthMismatch)
    );
    // The regions are judged before the buffers.
    assert_eq!(
        registry.checkout_refusal(h, 0, 0, &[1], 9, 9),
        Err(StorageError::RegionLengthMismatch)
    );
    let mut registry = AllocationRegistry::new(true);
    let (h, _data, _meta) = checked_out(&mut registry);
    assert_eq!(
        registry.checkin_refusal(h, 8, 3, &[1], 2, 1),
        Err(StorageError::RegionLengthMismatch)
    );
}

#[test]
fn a_call_under_way_excludes_every_other() {
    let mut registry = AllocationRegistry::new(true);
    let (h, data, meta) = small(&mut registry);
    let (other, other_data, other_meta) = small(&mut registry);
    let idx = [3u64, 0];
    let mut d = [9u64; 4];
    let mut m = [9u64; 2];

    assert_eq!(registry.checkout_refusal(h, 8, 4, &idx, 4, 2), Ok(()));
    begin_checkout(&mut registry, h);
    assert!(registry.allocation(h).unwrap().in_critical_section());
    assert!(registry.allocation(h).unwrap().is_checked_out());

    // While the items are copied, nothing else may be done with the handle.
    let refused = Err(StorageError::ReentrantCriticalSection);
    assert_eq!(registry.checkout_refusal(h, 8, 4, &idx, 4, 2), refused);
    assert_eq!(registry.checkin_refusal(h, 8, 4, &idx, 4, 2), refused);
    assert_eq!(registry.release_refusal(h), refused);
    // Another allocation is not concerned.
    assert_eq!(registry.checkout_refusal(other, 8, 4, &idx, 4, 2), Ok(()));
    checkout_oram_storage(&mut registry, other, &other_data, &other_meta, &idx, &mut d, &mut m);

    copy_out(&data, 2, &idx, &mut d);
    copy_out(&meta, 1, &idx, &mut m);
    end_transfer(&mut registry, h);
    assert!(!registry.allocation(h).unwrap().in_critical_section());
    assert!(registry.allocation(h).unwrap().is_checked_out());
    assert_eq!(d, [0, 0, 0, 0]);
    assert_eq!(m, [0, 0]);
    assert_eq!(registry.checkin_refusal(h, 8, 4, &idx, 4, 2), Ok(()));
}

#[test]
fn a_checkin_in_three_steps_does_what_a_checkin_does() {
    let mut registry = AllocationRegistry::new(false);
    let (h, mut data, mut meta) = checked_out(&mut registry);
    let idx = [3u64, 0];
    assert_eq!(registry.checkin_refusal(h, 8, 4, &idx, 4, 2), Ok(()));
    begin_checkin(&mut registry, h);
    assert!(registry.allocation(h).unwrap().in_critical_section());
    assert!(!registry.allocation(h).unwrap().is_checked_out());
    assert_eq!(
        registry.checkout_refusal(h, 8, 4, &idx, 4, 2),
        Err(StorageError::ReentrantCriticalSection)
    );
    assert_eq!(registry.release_refusal(h), Err(StorageError::ReentrantCriticalSection));
    copy_in(&mut data, 2, &idx, &[31, 32, 1, 2]);
    copy_in(&mut meta, 1, &idx, &[33, 3]);
    end_transfer(&mut registry, h);
    assert_eq!(data, [1, 2, 0, 0, 0, 0, 31, 32]);
    assert_eq!(meta, [3, 0, 0, 33]);
    assert_eq!(registry.checkout_refusal(h, 8, 4, &idx, 4, 2), Ok(()));
    assert_eq!(registry.release_refusal(h), Ok(()));
}

#[test]
fn release_with_a_checkout_outstanding_is_admitted() {
    let mut registry = AllocationRegistry::new(true);
    let (h, _data, _meta) = checked_out(&mut registry);
    assert_eq!(registry.release_refusal(h), Ok(()));
    release_oram_storage(&mut registry, h);
    assert_eq!(registry.total_mem_footprint_kb(), 0);
    assert!(!registry.is_valid_id(h));
}

#[test]
fn unknown_handle_is_an_invalid_id() {
    for debug_checks in [true, false] {
        let mut registry = AllocationRegistry::new(debug_checks);
        let (h, data, meta) = small(&mut registry);
        let forged = h + 1;
        assert!(!registry.is_valid_id(forged));
        assert_eq!(
            registry.checkout_refusal(forged, 8, 4, &[1], 2, 1),
            Err(StorageError::InvalidId)
        );
        assert_eq!(
            registry.checkin_refusal(forged, 8, 4, &[1], 2, 1),
            Err(StorageError::InvalidId)
        );
        assert_eq!(registry.release_refusal(forged), Err(StorageError::InvalidId));
        assert!(registry.allocation(forged).is_none());
        // The handle is judged before everything else.
        assert_eq!(
            registry.checkout_refusal(forged, 0, 0, &[99], 7, 7),
            Err(StorageError::InvalidId)
        );
        // The allocation itself is not concerned.
        let mut d = [9u64; 2];
        let mut m = [9u64; 1];
        assert_eq!(registry.checkout_refusal(h, 8, 4, &[1], 2, 1), Ok(()));
        checkout_oram_storage(&mut registry, h, &data, &meta, &[1], &mut d, &mut m);
        assert_eq!(d, [0, 0]);
    }
}

#[test]
fn released_handle_is_an_invalid_id() {
    for debug_checks in [true, false] {
        let mut registry = AllocationRegistry::new(debug_checks);
        let (h, _data, _meta) = small(&mut registry);
        assert_eq!(registry.release_refusal(h), Ok(()));
        release_oram_storage(&mut registry, h);
        assert_eq!(registry.checkout_refusal(h, 8, 4, &[1], 2, 1), Err(StorageError::InvalidId));
        assert_eq!(registry.checkin_refusal(h, 8, 4, &[1], 2, 1), Err(StorageError::InvalidId));
        assert_eq!(registry.release_refusal(h), Err(StorageError::InvalidId));
    }
}

#[test]
fn allocation_checkout_and_checkin_without_a_registry() {
    assert_eq!(reservation_refusal(3, 8, 16), Ok(()));
    let mut allocation = UntrustedAllocation::new(3, 8, 16);
    assert_eq!(allocation.count(), 3);
    assert_eq!(allocation.data_item_size(), 8);
    assert_eq!(allocation.meta_item_size(), 16);
    assert_eq!(allocation.data_region_words(), 3);
    assert_eq!(allocation.meta_region_words(), 6);
    assert!(!allocation.is_checked_out());
    assert!(!allocation.in_critical_section());
    let mut data = vec![0u64; 3];
    let mut meta = vec![0u64; 6];

    assert_eq!(allocation.begin_checkin_refusal(), Err(StorageError::IllegalCheckin));
    assert_eq!(allocation.begin_checkout_refusal(), Ok(()));
    let mut d = [9u64; 2];
    let mut m = [9u64; 4];
    assert_eq!(allocation.checkout_refusal(3, 6, &[2, 0], 2, 4), Ok(()));
    allocation.checkout(&data, &meta, &[2, 0], &mut d, &mut m);
    assert_eq!(d, [0, 0]);
    assert_eq!(m, [0, 0, 0, 0]);
    assert!(allocation.is_checked_out());
    assert_eq!(allocation.begin_checkout_refusal(), Err(StorageError::IllegalCheckout));

    assert_eq!(allocation.checkin_refusal(3, 6, &[2, 0], 2, 4), Ok(()));
    allocation.checkin(&mut data, &mut meta, &[2, 0], &[20, 10], &[21, 22, 11, 12]);
    assert!(!allocation.is_checked_out());

    let mut d = [9u64; 3];
    let mut m = [9u64; 6];
    assert_eq!(allocation.checkout_refusal(3, 6, &[0, 1, 2], 3, 6), Ok(()));
    allocation.checkout(&data, &meta, &[0, 1, 2], &mut d, &mut m);
    assert_eq!(d, [10, 0, 20]);
    assert_eq!(m, [11, 12, 0, 0, 21, 22]);
}

#[test]
fn allocation_steps_one_by_one() {
    let mut allocation = UntrustedAllocation::new(2, 8, 8);
    assert_eq!(allocation.transfer_refusal(2, 2, &[1], 1, 1), Ok(()));
    assert_eq!(
        allocation.transfer_refusal(2, 2, &[2], 1, 1),
        Err(StorageError::IndexOutOfBounds)
    );
    allocation.begin_checkout();
    assert!(allocation.in_critical_section() && allocation.is_checked_out());
    assert_eq!(allocation.begin_checkout_refusal(), Err(StorageError::ReentrantCriticalSection));
    assert_eq!(allocation.begin_checkin_refusal(), Err(StorageError::ReentrantCriticalSection));
    allocation.end_transfer();
    assert!(!allocation.in_critical_section() && allocation.is_checked_out());
    allocation.begin_checkin();
    assert!(allocation.in_critical_section() && !allocation.is_checked_out());
    allocation.end_transfer();
    assert!(!allocation.in_critical_section() && !allocation.is_checked_out());
    allocation.enter_critical_section();
    assert!(allocation.in_critical_section());
    assert_eq!(
        allocation.checkout_refusal(2, 2, &[1], 1, 1),
        Err(StorageError::ReentrantCriticalSection)
    );
}

#[test]
fn unaligned_item_sizes_are_refused() {
    assert_eq!(WORD_SIZE, 8);
    assert_eq!(reservation_refusal(1000, 4096, 104), Ok(()));
    assert_eq!(reservation_refusal(1000, 4096, 100), Err(StorageError::MetaItemSizeUnaligned));
    assert_eq!(reservation_refusal(10, 12, 8), Err(StorageError::DataItemSizeUnaligned));
    assert_eq!(reservation_refusal(10, 8, 4), Err(StorageError::MetaItemSizeUnaligned));
    assert_eq!(reservation_refusal(10, 7, 9), Err(StorageError::DataItemSizeUnaligned));
    assert_eq!(reservation_refusal(0, 1, 0), Err(StorageError::DataItemSizeUnaligned));
    for size in 0..64usize {
        let expected = if size % 8 == 0 { Ok(()) } else { Err(StorageError::DataItemSizeUnaligned) };
        assert_eq!(reservation_refusal(5, size, 16), expected);
        let expected = if size % 8 == 0 { Ok(()) } else { Err(StorageError::MetaItemSizeUnaligned) };
        assert_eq!(reservation_refusal(5, 16, size), expected);
    }
}

#[test]
fn regions_that_cannot_be_addressed_are_refused() {
    assert_eq!(reservation_refusal(usize::MAX, 8, 8), Err(StorageError::ResourceExhausted));
    assert_eq!(reservation_refusal(usize::MAX / 8, 8, 16), Err(StorageError::ResourceExhausted));
    assert_eq!(
        reservation_refusal(2, (isize::MAX as usize / 16 + 1) * 8, 0),
        Err(StorageError::ResourceExhausted)
    );
    assert_eq!(
        reservation_refusal(isize::MAX as usize / 8 + 1, 0, 8),
        Err(StorageError::ResourceExhausted)
    );
    assert_eq!(reservation_refusal(isize::MAX as usize / 8, 0, 8), Ok(()));
    assert_eq!(reservation_refusal(usize::MAX, 0, 0), Ok(()));
    // Alignment is judged before size.
    assert_eq!(
        reservation_refusal(usize::MAX, 4097, 104),
        Err(StorageError::DataItemSizeUnaligned)
    );
}

#[test]
fn empty_allocations_and_empty_items() {
    let mut none = UntrustedAllocation::new(0, 4096, 104);
    assert_eq!(none.mem_kb(), 0);
    assert_eq!(none.data_region_words(), 0);
    assert_eq!(none.checkout_refusal(0, 0, &[], 0, 0), Ok(()));
    none.checkout(&[], &[], &[], &mut [], &mut []);
    assert_eq!(none.checkin_refusal(0, 0, &[], 0, 0), Ok(()));
    none.checkin(&mut [], &mut [], &[], &[], &[]);
    assert_eq!(none.checkout_refusal(0, 0, &[0], 512, 13), Err(StorageError::IndexOutOfBounds));

    let mut hollow = UntrustedAllocation::new(5, 0, 8);
    assert_eq!(hollow.mem_kb(), 1);
    assert_eq!(hollow.data_region_words(), 0);
    assert_eq!(hollow.meta_region_words(), 5);
    let mut meta = vec![0u64; 5];
    let mut m = [9u64; 2];
    assert_eq!(hollow.checkout_refusal(0, 5, &[4, 0], 0, 2), Ok(()));
    hollow.checkout(&[], &meta, &[4, 0], &mut [], &mut m);
    assert_eq!(m, [0, 0]);
    hollow.checkin(&mut [], &mut meta, &[4, 0], &[], &[40, 1]);
    hollow.checkout(&[], &meta, &[0, 4], &mut [], &mut m);
    assert_eq!(m, [1, 40]);
}

#[test]
fn every_refusal_has_its_class() {
    assert_eq!(StorageError::DataItemSizeUnaligned.class(), ErrorClass::Configuration);
    assert_eq!(StorageError::MetaItemSizeUnaligned.class(), ErrorClass::Configuration);
    assert_eq!(StorageError::ResourceExhausted.class(), ErrorClass::ResourceExhaustion);
    assert_eq!(StorageError::InvalidId.class(), ErrorClass::ProtocolViolation);
    assert_eq!(StorageError::ReentrantCriticalSection.class(), ErrorClass::ProtocolViolation);
    assert_eq!(StorageError::IllegalCheckout.class(), ErrorClass::ProtocolViolation);
    assert_eq!(StorageError::IllegalCheckin.class(), ErrorClass::ProtocolViolation);
    assert_eq!(StorageError::RegionLengthMismatch.class(), ErrorClass::BufferContractViolation);
    assert_eq!(StorageError::DataLengthMismatch.class(), ErrorClass::BufferContractViolation);
    assert_eq!(StorageError::MetaLengthMismatch.class(), ErrorClass::BufferContractViolation);
    assert_eq!(StorageError::IndexOutOfBounds.class(), ErrorClass::BufferContractViolation);
}
