use oram_storage::registry::{
    allocate_oram_storage, checkin_oram_storage, checkout_oram_storage, release_oram_storage,
    AllocationRegistry,
};

const COUNT: u64 = 1000;
const DATA_SIZE: u64 = 4096;
const META_SIZE: u64 = 104;

/// Makes an allocation and reserves its two regions, zeroed.
fn allocate(
    registry: &mut AllocationRegistry,
    count: u64,
    data_size: u64,
    meta_size: u64,
) -> (u64, Vec<u64>, Vec<u64>) {
    assert_eq!(registry.allocate_refusal(count, data_size, meta_size), Ok(()));
    let id = allocate_oram_storage(registry, count, data_size, meta_size);
    let allocation = registry.allocation(id).unwrap();
    let data = vec![0u64; allocation.data_region_words()];
    let meta = vec![0u64; allocation.meta_region_words()];
    (id, data, meta)
}

fn checkout(
    registry: &mut AllocationRegistry,
    id: u64,
    data: &[u64],
    meta: &[u64],
    idx: &[u64],
    databuf: &mut [u64],
    metabuf: &mut [u64],
) {
    assert_eq!(
        registry.checkout_refusal(id, data.len(), meta.len(), idx, databuf.len(), metabuf.len()),
        Ok(())
    );
    checkout_oram_storage(registry, id, data, meta, idx, databuf, metabuf);
}

fn checkin(
    registry: &mut AllocationRegistry,
    id: u64,
    data: &mut [u64],
    meta: &mut [u64],
    idx: &[u64],
    databuf: &[u64],
    metabuf: &[u64],
) {
    assert_eq!(
        registry.checkin_refusal(id, data.len(), meta.len(), idx, databuf.len(), metabuf.len()),
        Ok(())
    );
    checkin_oram_storage(registry, id, data, meta, idx, databuf, metabuf);
}

fn release(registry: &mut AllocationRegistry, id: u64) {
    assert_eq!(registry.release_refusal(id), Ok(()));
    release_oram_storage(registry, id);
}

#[test]
fn allocate_checkout_checkin_checkout_release() {
    let mut registry = AllocationRegistry::new(true);
    let before = registry.total_mem_footprint_kb();

    let (h, mut data, mut meta) = allocate(&mut registry, COUNT, DATA_SIZE, META_SIZE);
    assert_eq!(data.len(), 512_000);
    assert_eq!(meta.len(), 13_000);
    assert_eq!(registry.total_mem_footprint_kb(), before + 4102);

    let idx: Vec<u64> = (0..10).collect();
    let mut d = vec![7u64; 5120];
    let mut m = vec![7u64; 130];
    checkout(&mut registry, h, &data, &meta, &idx, &mut d, &mut m);
    assert_eq!(d, vec![0u64; 5120]);
    assert_eq!(m, vec![0u64; 130]);

    let d2 = vec![2u64; 5120];
    let m2 = vec![3u64; 130];
    checkin(&mut registry, h, &mut data, &mut meta, &idx, &d2, &m2);

    let mut d3 = vec![0u64; 5120];
    let mut m3 = vec![0u64; 130];
    checkout(&mut registry, h, &data, &meta, &idx, &mut d3, &mut m3);
    assert_eq!(d3, vec![2u64; 5120]);
    assert_eq!(m3, vec![3u64; 130]);

    release(&mut registry, h);
    assert_eq!(registry.total_mem_footprint_kb(), before);
    assert!(!registry.is_valid_id(h));
}

#[test]
fn repeated_checkout_checkin_of_one_item() {
    // Ten positions that all name item 0, as a caller that hides its access
    // pattern may send them.
    let mut registry = AllocationRegistry::new(true);
    let (h, mut data, mut meta) = allocate(&mut registry, COUNT, DATA_SIZE, META_SIZE);

    let checkout_idx = [0u64; 10];
    let mut checkout_databuf = [0u64; 5120];
    let mut checkout_metabuf = [0u64; 130];
    let checkin_idx = [0u64; 10];
    let checkin_databuf = [2u64; 5120];
    let checkin_metabuf = [3u64; 130];

    for round in 0..5 {
        checkout(
            &mut registry,
            h,
            &data,
            &meta,
            &checkout_idx,
            &mut checkout_databuf,
            &mut checkout_metabuf,
        );
        let expected = if round == 0 { (0u64, 0u64) } else { (2u64, 3u64) };
        assert!(checkout_databuf.iter().all(|w| *w == expected.0));
        assert!(checkout_metabuf.iter().all(|w| *w == expected.1));
        checkin(
            &mut registry,
            h,
            &mut data,
            &mut meta,
            &checkin_idx,
            &checkin_databuf,
            &checkin_metabuf,
        );
    }

    release(&mut registry, h);
    assert_eq!(registry.total_mem_footprint_kb(), 0);
}

#[test]
fn untouched_items_stay_zero() {
    let mut registry = AllocationRegistry::new(false);
    let (h, mut data, mut meta) = allocate(&mut registry, 16, 16, 8);
    let mut d = vec![0u64; 4];
    let mut m = vec![0u64; 2];
    checkout(&mut registry, h, &data, &meta, &[3, 9], &mut d, &mut m);
    checkin(&mut registry, h, &mut data, &mut meta, &[3, 9], &[31, 32, 91, 92], &[33, 93]);

    let all: Vec<u64> = (0..16).collect();
    let mut every_d = vec![1u64; 32];
    let mut every_m = vec![1u64; 16];
    checkout(&mut registry, h, &data, &meta, &all, &mut every_d, &mut every_m);
    for item in 0..16usize {
        let (want_d, want_m) = match item {
            3 => ([31u64, 32], 33u64),
            9 => ([91, 92], 93),
            _ => ([0, 0], 0),
        };
        assert_eq!(&every_d[2 * item..2 * item + 2], &want_d);
        assert_eq!(every_m[item], want_m);
    }
    assert_eq!(every_d, data);
    assert_eq!(every_m, meta);
}

#[test]
fn checkin_then_checkout_returns_what_was_checked_in() {
    let mut registry = AllocationRegistry::new(true);
    let (h, mut data, mut meta) = allocate(&mut registry, 8, 24, 16);
    let idx = [7u64, 2, 5];
    let mut d = vec![0u64; 9];
    let mut m = vec![0u64; 6];
    checkout(&mut registry, h, &data, &meta, &idx, &mut d, &mut m);

    let data_in: Vec<u64> = (100..109).collect();
    let meta_in: Vec<u64> = (200..206).collect();
    checkin(&mut registry, h, &mut data, &mut meta, &idx, &data_in, &meta_in);

    let mut data_back = vec![0u64; 9];
    let mut meta_back = vec![0u64; 6];
    checkout(&mut registry, h, &data, &meta, &idx, &mut data_back, &mut meta_back);
    assert_eq!(data_back, data_in);
    assert_eq!(meta_back, meta_in);

    // The same items in another order come back in that order.
    checkin(&mut registry, h, &mut data, &mut meta, &idx, &data_in, &meta_in);
    checkout(&mut registry, h, &data, &meta, &[2, 5, 7], &mut d, &mut m);
    assert_eq!(d, [103, 104, 105, 106, 107, 108, 100, 101, 102]);
    assert_eq!(m, [202, 203, 204, 205, 200, 201]);
}

#[test]
fn an_item_checked_in_twice_keeps_the_later_words() {
    let mut registry = AllocationRegistry::new(true);
    let (h, mut data, mut meta) = allocate(&mut registry, 4, 8, 8);
    let mut d = [0u64; 3];
    let mut m = [0u64; 3];
    checkout(&mut registry, h, &data, &meta, &[1, 3, 1], &mut d, &mut m);
    checkin(&mut registry, h, &mut data, &mut meta, &[1, 3, 1], &[10, 30, 11], &[5, 6, 7]);
    checkout(&mut registry, h, &data, &meta, &[1, 3, 1], &mut d, &mut m);
    assert_eq!(d, [11, 30, 11]);
    assert_eq!(m, [7, 6, 7]);
    assert_eq!(data, [0, 11, 0, 30]);
    assert_eq!(meta, [0, 7, 0, 6]);
}

#[test]
fn two_allocations_keep_their_items_apart() {
    let mut registry = AllocationRegistry::new(true);
    let (a, mut a_data, mut a_meta) = allocate(&mut registry, 2, 8, 8);
    let (b, mut b_data, mut b_meta) = allocate(&mut registry, 2, 8, 8);
    let mut d = [0u64; 1];
    let mut m = [0u64; 1];
    checkout(&mut registry, a, &a_data, &a_meta, &[1], &mut d, &mut m);
    checkout(&mut registry, b, &b_data, &b_meta, &[1], &mut d, &mut m);
    checkin(&mut registry, a, &mut a_data, &mut a_meta, &[1], &[11], &[12]);
    checkin(&mut registry, b, &mut b_data, &mut b_meta, &[1], &[21], &[22]);
    checkout(&mut registry, a, &a_data, &a_meta, &[1], &mut d, &mut m);
    assert_eq!((d, m), ([11], [12]));
    checkout(&mut registry, b, &b_data, &b_meta, &[1], &mut d, &mut m);
    assert_eq!((d, m), ([21], [22]));
}
