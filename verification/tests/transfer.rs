use oram_storage::transfer::{all_in_bounds, copy_in, copy_out};

#[test]
fn copy_out_follows_the_order_of_the_list() {
    let region: Vec<u64> = (0..12).collect();
    let mut out = [99u64; 9];
    copy_out(&region, 3, &[3, 1, 2], &mut out);
    assert_eq!(out, [9, 10, 11, 3, 4, 5, 6, 7, 8]);
}

#[test]
fn copy_out_repeats_an_item_that_is_named_again() {
    let region: Vec<u64> = (0..12).collect();
    let mut out = [99u64; 6];
    copy_out(&region, 2, &[5, 5, 0], &mut out);
    assert_eq!(out, [10, 11, 10, 11, 0, 1]);
}

#[test]
fn copy_in_follows_the_order_of_the_list() {
    let mut region = vec![0u64; 12];
    copy_in(&mut region, 3, &[3, 1], &[31, 32, 33, 11, 12, 13]);
    assert_eq!(region, [0, 0, 0, 11, 12, 13, 0, 0, 0, 31, 32, 33]);
}

#[test]
fn copy_in_lets_the_last_write_win() {
    let mut region = vec![5u64; 8];
    copy_in(&mut region, 2, &[2, 0, 2], &[1, 2, 3, 4, 5, 6]);
    assert_eq!(region, [3, 4, 5, 5, 5, 6, 5, 5]);
}

#[test]
fn copy_in_then_copy_out_returns_what_was_written() {
    let mut region = vec![0u64; 40];
    let indices = [7u64, 0, 3, 9, 4];
    let words: Vec<u64> = (100..120).collect();
    copy_in(&mut region, 4, &indices, &words);
    let mut back = vec![0u64; 20];
    copy_out(&region, 4, &indices, &mut back);
    assert_eq!(back, words);
}

#[test]
fn copies_of_nothing() {
    let mut region = vec![1u64; 6];
    copy_in(&mut region, 2, &[], &[]);
    assert_eq!(region, [1; 6]);
    let mut out: [u64; 0] = [];
    copy_out(&region, 2, &[], &mut out);
    let mut hollow: Vec<u64> = Vec::new();
    copy_in(&mut hollow, 0, &[2, 1], &[]);
    copy_out(&hollow, 0, &[2, 1], &mut out);
    assert!(hollow.is_empty());
}

#[test]
fn all_in_bounds_judges_every_index() {
    assert!(all_in_bounds(&[], 0));
    assert!(all_in_bounds(&[0, 1, 2, 3], 4));
    assert!(!all_in_bounds(&[0, 1, 2, 4], 4));
    assert!(!all_in_bounds(&[4, 0], 4));
    assert!(!all_in_bounds(&[0], 0));
    assert!(!all_in_bounds(&[u64::MAX], usize::MAX));
    assert!(all_in_bounds(&[u64::MAX - 1], usize::MAX));
}
