use libdiffuzz::no_std::{calloc, fill_word, free, libdiffuzz_init_config, malloc, realloc, Heap, ARENA_SIZE_BYTES};
use libdiffuzz::CANARY_SIZE;

const W: usize = CANARY_SIZE;

/// A heap in which `n` empty allocations have been made: `n` header words,
/// and a rotation that stands at `n`.
fn rotated(n: usize) -> Heap {
    let mut heap = libdiffuzz_init_config();
    for i in 0..n {
        assert_eq!(malloc(&mut heap, 0), Some((i + 1) * W));
    }
    heap
}

fn words_from(heap: &mut Heap, from: usize) -> Vec<usize> {
    let n = heap.len();
    (from..n).map(|i| heap.word(i).unwrap()).collect()
}

fn set(heap: &mut Heap, index: usize, value: usize) {
    *heap.word_mut(index).unwrap() = value;
}

#[test]
fn fill_word_replicates_the_byte() {
    assert_eq!(fill_word(0), 0);
    assert_eq!(fill_word(0xAB).to_ne_bytes(), [0xABu8; W]);
    assert_eq!(fill_word(1).to_ne_bytes(), [1u8; W]);
    assert_eq!(fill_word(255), usize::MAX);
}

#[test]
fn arena_starts_empty() {
    let mut heap = libdiffuzz_init_config();
    assert_eq!(heap.len(), 0);
    assert_eq!(heap.capacity(), ARENA_SIZE_BYTES / W);
    assert_eq!(heap.capacity() * W, 8 * 1024 * 1024);
    assert_eq!(heap.config().mem_init, 0);
    assert_eq!(heap.config().alloc_extra_mem, 0);
    assert_eq!(heap.word(0), None);
    assert!(heap.word_mut(0).is_none());
}

#[test]
fn arena_malloc_writes_header_and_fill() {
    let mut heap = rotated(3);
    let ptr = malloc(&mut heap, 10).unwrap();
    assert_eq!(ptr, 4 * W);
    let header = heap.word(ptr / W - 1).unwrap();
    assert_eq!(header, 10 + W);
    assert!(header >= 10 + W);
    let region = (10 + W - 1) / W;
    assert_eq!(heap.len(), 3 + 1 + region);
    let mut expected = vec![fill_word(3); 1 + region];
    expected[0] = 10 + W;
    assert_eq!(words_from(&mut heap, 3), expected);
    for word in words_from(&mut heap, 4) {
        assert_eq!(word.to_ne_bytes(), [3u8; W]);
    }
    assert_eq!(heap.config().mem_init, 4);
}

#[test]
fn arena_blocks_follow_one_another() {
    let mut heap = rotated(1);
    let a = malloc(&mut heap, W).unwrap();
    let b = malloc(&mut heap, 1).unwrap();
    let c = malloc(&mut heap, 0).unwrap();
    assert_eq!(a, 2 * W);
    assert_eq!(b, 4 * W);
    assert_eq!(c, 6 * W);
    assert_eq!(words_from(&mut heap, 0), vec![W, 2 * W, fill_word(1), W + 1, fill_word(2), W]);
    assert_eq!(heap.config().mem_init, 4);
}

#[test]
fn arena_fill_differs_from_the_previous_allocation() {
    let mut heap = rotated(255);
    let a = malloc(&mut heap, 4).unwrap();
    let b = malloc(&mut heap, 4).unwrap();
    let c = malloc(&mut heap, 4).unwrap();
    let first = heap.word(a / W).unwrap();
    let second = heap.word(b / W).unwrap();
    let third = heap.word(c / W).unwrap();
    assert_eq!(first, fill_word(255));
    assert_eq!(second, fill_word(0));
    assert_eq!(third, fill_word(1));
    assert_ne!(first, second);
    assert_ne!(second, third);
}

#[test]
fn arena_refuses_overflow() {
    let mut heap = libdiffuzz_init_config();
    assert_eq!(malloc(&mut heap, usize::MAX), None);
    assert_eq!(malloc(&mut heap, usize::MAX - W + 1), None);
    assert_eq!(malloc(&mut heap, usize::MAX - W), None);
    assert_eq!(calloc(&mut heap, usize::MAX, 2), None);
    assert_eq!(calloc(&mut heap, usize::MAX, 1), None);
    assert_eq!(realloc(&mut heap, None, usize::MAX), None);
    assert_eq!(heap.len(), 0);
    assert_eq!(heap.config().mem_init, 0);
}

#[test]
fn arena_fails_when_exhausted() {
    let mut heap = libdiffuzz_init_config();
    assert_eq!(malloc(&mut heap, ARENA_SIZE_BYTES), None);
    assert_eq!(malloc(&mut heap, ARENA_SIZE_BYTES - W + 1), None);
    assert_eq!(heap.len(), 0);
    assert_eq!(heap.config().mem_init, 0);
    let ptr = malloc(&mut heap, ARENA_SIZE_BYTES - 2 * W);
    assert_eq!(ptr, Some(W));
    assert_eq!(heap.len(), heap.capacity() - 1);
    assert_eq!(malloc(&mut heap, 1), None);
    assert_eq!(malloc(&mut heap, 0), Some(heap.capacity() * W));
    assert_eq!(heap.len(), heap.capacity());
    assert_eq!(malloc(&mut heap, 0), None);
    assert_eq!(calloc(&mut heap, 0, 0), None);
    assert_eq!(realloc(&mut heap, None, 0), None);
    assert_eq!(realloc(&mut heap, Some(W), 0), None);
    assert_eq!(heap.len(), heap.capacity());
    assert_eq!(heap.config().mem_init, 2);
}

#[test]
fn arena_takes_a_request_that_fills_it_exactly() {
    let mut heap = libdiffuzz_init_config();
    assert_eq!(malloc(&mut heap, ARENA_SIZE_BYTES - W), Some(W));
    assert_eq!(heap.len(), heap.capacity());
    assert_eq!(heap.word(0), Some(ARENA_SIZE_BYTES));
    assert_eq!(heap.word(heap.capacity() - 1), Some(0));
    assert_eq!(heap.word(heap.capacity()), None);
}

#[test]
fn arena_calloc_zeroes_the_region() {
    let mut heap = rotated(0x77);
    malloc(&mut heap, 3).unwrap();
    let ptr = calloc(&mut heap, 3, 5).unwrap();
    assert_eq!(ptr, (0x77 + 3) * W);
    let region = (15 + W - 1) / W;
    let all = words_from(&mut heap, 0x77);
    assert_eq!(all.len(), 2 + 1 + region);
    assert_eq!(all[0], 3 + W);
    assert_eq!(all[1], fill_word(0x77));
    assert_eq!(all[2], 15 + W);
    assert!(all[3..].iter().all(|w| *w == 0));
    assert_eq!(heap.config().mem_init, 0x79);
}

#[test]
fn arena_free_changes_nothing() {
    let mut heap = rotated(9);
    let ptr = malloc(&mut heap, 12).unwrap();
    let before = words_from(&mut heap, 0);
    free(&mut heap, Some(ptr));
    free(&mut heap, None);
    assert_eq!(words_from(&mut heap, 0), before);
    assert_eq!(heap.config().mem_init, 10);
}

#[test]
fn arena_never_reuses_released_memory() {
    let mut heap = rotated(0x21);
    let a = malloc(&mut heap, 2 * W).unwrap();
    set(&mut heap, a / W, 0xDEAD);
    let before = words_from(&mut heap, 0);
    free(&mut heap, Some(a));
    let b = malloc(&mut heap, 2 * W).unwrap();
    assert!(b > a);
    assert_eq!(b, a + 3 * W);
    let after = words_from(&mut heap, 0);
    assert_eq!(&after[..before.len()], &before[..]);
    assert_eq!(heap.word(a / W), Some(0xDEAD));
    assert_eq!(heap.word(b / W), Some(fill_word(0x22)));
}

#[test]
fn arena_words_can_be_written() {
    let mut heap = libdiffuzz_init_config();
    let ptr = malloc(&mut heap, 3 * W).unwrap();
    let at = ptr / W;
    set(&mut heap, at + 1, 5);
    *heap.word_mut(at + 2).unwrap() = 6;
    assert_eq!(words_from(&mut heap, 0), vec![4 * W, 0, 5, 6]);
    assert!(heap.word_mut(4).is_none());
    assert_eq!(heap.word(4), None);
    assert_eq!(heap.word(3), Some(6));
    assert_eq!(words_from(&mut heap, 0), vec![4 * W, 0, 5, 6]);
}

#[test]
fn arena_realloc_of_null_is_malloc() {
    let mut a = rotated(3);
    let mut b = rotated(3);
    assert_eq!(realloc(&mut a, None, 20), malloc(&mut b, 20));
    assert_eq!(words_from(&mut a, 0), words_from(&mut b, 0));
    assert_eq!(a.config().mem_init, b.config().mem_init);
}

#[test]
fn arena_realloc_relocates_and_keeps_the_content() {
    let mut heap = rotated(0x50);
    let old = malloc(&mut heap, 2 * W).unwrap();
    let at = old / W;
    set(&mut heap, at, 111);
    set(&mut heap, at + 1, 222);
    let new = realloc(&mut heap, Some(old), 5 * W).unwrap();
    assert_ne!(new, old);
    assert_eq!(new, old + 3 * W);
    assert_eq!(
        words_from(&mut heap, 0x50),
        vec![3 * W, 111, 222, 6 * W, 111, 222, 6 * W, fill_word(0x51), fill_word(0x51)]
    );
    assert_eq!(heap.config().mem_init, 0x52);
}

#[test]
fn arena_realloc_shrinks_to_the_new_length() {
    let mut heap = rotated(0x60);
    let old = malloc(&mut heap, 4 * W).unwrap();
    let at = old / W;
    for i in 0..4 {
        set(&mut heap, at + i, 100 + i);
    }
    let new = realloc(&mut heap, Some(old), W + 1).unwrap();
    assert_eq!(new, old + 5 * W);
    let all = words_from(&mut heap, 0x60);
    assert_eq!(&all[..5], &[5 * W, 100, 101, 102, 103][..]);
    assert_eq!(&all[5..], &[2 * W + 1, 100, 101][..]);
}

#[test]
fn arena_realloc_to_nothing_copies_nothing() {
    let mut heap = rotated(2);
    let old = malloc(&mut heap, W).unwrap();
    set(&mut heap, old / W, 7);
    let new = realloc(&mut heap, Some(old), 0).unwrap();
    assert_eq!(new, old + 2 * W);
    assert_eq!(words_from(&mut heap, 2), vec![2 * W, 7, W]);
}

#[test]
fn arena_realloc_refuses_what_is_no_pointer() {
    let mut heap = libdiffuzz_init_config();
    malloc(&mut heap, 4).unwrap();
    let before = words_from(&mut heap, 0);
    assert_eq!(realloc(&mut heap, Some(0), 4), None);
    assert_eq!(realloc(&mut heap, Some(W + 1), 4), None);
    assert_eq!(realloc(&mut heap, Some(3 * W), 4), None);
    assert_eq!(realloc(&mut heap, Some(usize::MAX), 4), None);
    assert_eq!(words_from(&mut heap, 0), before);
    assert_eq!(heap.config().mem_init, 1);
    assert_eq!(realloc(&mut heap, Some(W), usize::MAX), None);
    assert_eq!(words_from(&mut heap, 0), before);
    assert_eq!(heap.config().mem_init, 1);
}
