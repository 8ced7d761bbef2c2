use libdiffuzz::sizing::{array_len, copy_len, full_len, words_for};
use libdiffuzz::CANARY_SIZE;

#[test]
fn canary_is_one_machine_word() {
    assert_eq!(CANARY_SIZE, std::mem::size_of::<usize>());
}

#[test]
fn full_len_adds_header_and_padding() {
    assert_eq!(full_len(10, 16), Some(10 + CANARY_SIZE + 16));
    assert_eq!(full_len(0, 0), Some(CANARY_SIZE));
    assert_eq!(full_len(1, 0), Some(CANARY_SIZE + 1));
}

#[test]
fn full_len_refuses_the_largest_length() {
    assert_eq!(full_len(usize::MAX, 0), None);
    assert_eq!(full_len(usize::MAX, 16), None);
}

#[test]
fn full_len_is_exact_at_the_boundary() {
    assert_eq!(full_len(usize::MAX - CANARY_SIZE, 0), Some(usize::MAX));
    assert_eq!(full_len(usize::MAX - CANARY_SIZE, 1), None);
    assert_eq!(full_len(usize::MAX - CANARY_SIZE + 1, 0), None);
    assert_eq!(full_len(0, usize::MAX - CANARY_SIZE), Some(usize::MAX));
    assert_eq!(full_len(0, usize::MAX - CANARY_SIZE + 1), None);
}

#[test]
fn array_len_multiplies() {
    assert_eq!(array_len(3, 5), Some(15));
    assert_eq!(array_len(0, usize::MAX), Some(0));
    assert_eq!(array_len(usize::MAX, 1), Some(usize::MAX));
}

#[test]
fn array_len_refuses_an_overflowing_product() {
    assert_eq!(array_len(usize::MAX, 2), None);
    assert_eq!(array_len(2, usize::MAX), None);
    assert_eq!(array_len(usize::MAX / 2 + 1, 2), None);
}

#[test]
fn words_for_rounds_up() {
    assert_eq!(words_for(0), 0);
    assert_eq!(words_for(1), 1);
    assert_eq!(words_for(CANARY_SIZE - 1), 1);
    assert_eq!(words_for(CANARY_SIZE), 1);
    assert_eq!(words_for(CANARY_SIZE + 1), 2);
    assert_eq!(words_for(10 * CANARY_SIZE), 10);
    assert_eq!(words_for(usize::MAX), usize::MAX / CANARY_SIZE + 1);
}

#[test]
fn copy_len_is_the_smaller() {
    assert_eq!(copy_len(5, 20), 5);
    assert_eq!(copy_len(20, 5), 5);
    assert_eq!(copy_len(7, 7), 7);
    assert_eq!(copy_len(0, 7), 0);
}
