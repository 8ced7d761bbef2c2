//! Size arithmetic shared by both variants. Every addition and
//! multiplication is checked: a request whose size does not fit in a machine
//! word is refused, never wrapped round to a small allocation.

use vstd::prelude::*;
use crate::CANARY_SIZE;

verus! {

/// Total bytes that a request of `len` user bytes reserves: the header word,
/// the user bytes and the extra padding.
pub open spec fn spec_full_len(len: usize, alloc_extra_mem: usize) -> int {
    len + CANARY_SIZE + alloc_extra_mem
}

/// Bytes asked for by an array request.
pub open spec fn spec_array_len(n_items: usize, item_len: usize) -> int {
    n_items * item_len
}

/// Machine words needed to hold `full_len` bytes, rounding up.
pub open spec fn spec_words_for(full_len: usize) -> int {
    (full_len + CANARY_SIZE - 1) / (CANARY_SIZE as int)
}

/// Bytes that a resize carries over: the smaller of the new length and the
/// size recorded in the old header.
pub open spec fn spec_copy_len(new_len: usize, orig_len: usize) -> usize {
    if new_len <= orig_len {
        new_len
    } else {
        orig_len
    }
}

/// Computes the total size to reserve for `len` user bytes, or `None` where
/// the sum overflows the machine word.
pub fn full_len(len: usize, alloc_extra_mem: usize) -> (total: Option<usize>)
    ensures
        total is Some <==> spec_full_len(len, alloc_extra_mem) <= usize::MAX,
        total is Some ==> total->0 == spec_full_len(len, alloc_extra_mem),
{
    match len.checked_add(CANARY_SIZE) {
        Some(with_header) => with_header.checked_add(alloc_extra_mem),
        None => None,
    }
}

/// Computes the byte length of an array of `n_items` items of `item_len`
/// bytes, or `None` where the product overflows the machine word.
pub fn array_len(n_items: usize, item_len: usize) -> (len: Option<usize>)
    ensures
        len is Some <==> spec_array_len(n_items, item_len) <= usize::MAX,
        len is Some ==> len->0 == spec_array_len(n_items, item_len),
{
    n_items.checked_mul(item_len)
}

/// Converts a byte count into a count of machine words, rounding up.
pub fn words_for(full_len: usize) -> (words: usize)
    ensures
        words == spec_words_for(full_len),
        words * CANARY_SIZE >= full_len,
        words * CANARY_SIZE < full_len + CANARY_SIZE,
        full_len >= CANARY_SIZE ==> words >= 1,
{
    let whole: usize = full_len / CANARY_SIZE;
    let rest: usize = full_len % CANARY_SIZE;
    proof {
        lemma_words_for(full_len);
    }
    if rest > 0 {
        whole + 1
    } else {
        whole
    }
}

/// Rounding up to words, spelled out by quotient and remainder.
pub proof fn lemma_words_for(full_len: usize)
    ensures
        spec_words_for(full_len) == full_len as int / CANARY_SIZE as int + (if full_len as int
            % CANARY_SIZE as int > 0 {
            1int
        } else {
            0int
        }),
        spec_words_for(full_len) * CANARY_SIZE >= full_len,
        spec_words_for(full_len) * CANARY_SIZE < full_len + CANARY_SIZE,
        spec_words_for(full_len) <= full_len / CANARY_SIZE + 1,
        full_len >= CANARY_SIZE ==> spec_words_for(full_len) >= 1,
        full_len == 0 ==> spec_words_for(full_len) == 0,
{
    assert(CANARY_SIZE == 4 || CANARY_SIZE == 8);
    if CANARY_SIZE == 4 {
        assert(spec_words_for(full_len) == (full_len + 3) / 4);
    } else {
        assert(spec_words_for(full_len) == (full_len + 7) / 8);
    }
}

/// A whole number of words, taken as bytes, divides back into that number.
pub proof fn lemma_word_multiple(k: int)
    ensures
        (k * CANARY_SIZE) / (CANARY_SIZE as int) == k,
        (k * CANARY_SIZE) % (CANARY_SIZE as int) == 0,
{
    assert(CANARY_SIZE == 4 || CANARY_SIZE == 8);
    if CANARY_SIZE == 4 {
        assert((k * 4) / 4 == k);
        assert((k * 4) % 4 == 0);
    } else {
        assert((k * 8) / 8 == k);
        assert((k * 8) % 8 == 0);
    }
}

/// A byte count splits into whole words and a remainder smaller than a word.
pub proof fn lemma_word_split(x: int)
    requires
        0 <= x,
    ensures
        x == (x / (CANARY_SIZE as int)) * CANARY_SIZE + x % (CANARY_SIZE as int),
        0 <= x % (CANARY_SIZE as int) < CANARY_SIZE,
        0 <= x / (CANARY_SIZE as int),
{
    assert(CANARY_SIZE == 4 || CANARY_SIZE == 8);
    if CANARY_SIZE == 4 {
        assert(x == (x / 4) * 4 + x % 4);
    } else {
        assert(x == (x / 8) * 8 + x % 8);
    }
}

/// More bytes never take fewer words.
pub proof fn lemma_words_for_monotone(a: usize, b: usize)
    requires
        a <= b,
    ensures
        spec_words_for(a) <= spec_words_for(b),
{
    assert(CANARY_SIZE == 4 || CANARY_SIZE == 8);
    if CANARY_SIZE == 4 {
        assert((a + 3) / 4 <= (b + 3) / 4);
    } else {
        assert((a + 7) / 8 <= (b + 7) / 8);
    }
}

/// One more word of bytes takes exactly one more word.
pub proof fn lemma_words_for_header(len: usize)
    requires
        len + CANARY_SIZE <= usize::MAX,
    ensures
        spec_words_for((len + CANARY_SIZE) as usize) == spec_words_for(len) + 1,
{
    assert(CANARY_SIZE == 4 || CANARY_SIZE == 8);
    if CANARY_SIZE == 4 {
        assert((len + 4 + 3) / 4 == (len + 3) / 4 + 1);
    } else {
        assert((len + 8 + 7) / 8 == (len + 7) / 8 + 1);
    }
}

/// The number of bytes a resize copies from the old user region.
pub fn copy_len(new_len: usize, orig_len: usize) -> (n: usize)
    ensures
        n == spec_copy_len(new_len, orig_len),
{
    if new_len <= orig_len {
        new_len
    } else {
        orig_len
    }
}

/// A request of the largest representable length is refused, and so is an
/// array request whose product overflows: neither wraps round to a small
/// allocation.
pub proof fn lemma_overflow_guard(alloc_extra_mem: usize, n_items: usize, item_len: usize)
    ensures
        spec_full_len(usize::MAX, alloc_extra_mem) > usize::MAX,
        n_items == usize::MAX && item_len >= 2 ==> spec_array_len(n_items, item_len) > usize::MAX,
        forall|len: usize| spec_full_len(len, alloc_extra_mem) >= len + CANARY_SIZE,
{
    assert(CANARY_SIZE >= 4);
    if n_items == usize::MAX && item_len >= 2 {
        assert(n_items * item_len >= n_items * 2) by (nonlinear_arith)
            requires
                item_len >= 2,
                n_items >= 0,
        ;
    }
}

} // verus!
