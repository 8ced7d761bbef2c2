//! The freestanding variant: allocations are carved out of one arena of
//! machine words with a fixed capacity. The arena only ever grows towards its
//! capacity; nothing is given back, so no allocation is ever handed out
//! twice.

use vstd::prelude::*;
use typed_arena::Arena;
use crate::{get_mem_init, rotated, Config, CANARY_SIZE};
use crate::sizing::{
    array_len,
    copy_len,
    full_len,
    lemma_word_multiple,
    lemma_word_split,
    lemma_words_for_header,
    lemma_words_for_monotone,
    lemma_words_for,
    spec_array_len,
    spec_copy_len,
    spec_full_len,
    spec_words_for,
    words_for,
};

verus! {

/// Bytes of memory that the arena manages.
pub const ARENA_SIZE_BYTES: usize = 8 * 1024 * 1024;

/// `typed_arena::Arena`, taken as it is: nothing inside it is visible here.
#[verifier::external_type_specification]
#[verifier::external_body]
#[verifier::reject_recursive_types(T)]
pub struct ExArena<T>(typed_arena::Arena<T>);

/// The words that an arena holds, in the order in which they were allocated.
pub uninterp spec fn arena_words(arena: Arena<usize>) -> Seq<usize>;

/// The number of words that an arena was made to hold without growing.
pub uninterp spec fn arena_limit(arena: Arena<usize>) -> nat;

/// `typed_arena::Arena::with_capacity`: a new arena that holds nothing and
/// has room for `n` words in its first chunk. The bound keeps the chunk's
/// size in bytes within what a vector can be asked for.
#[verifier::external_body]
fn arena_with_capacity(n: usize) -> (arena: Arena<usize>)
    requires
        n * CANARY_SIZE <= isize::MAX,
    ensures
        arena_words(arena) == Seq::<usize>::empty(),
        arena_limit(arena) == n,
{
    Arena::with_capacity(n)
}

/// `typed_arena::Arena::len`: the number of words allocated so far.
#[verifier::external_body]
fn arena_len(arena: &Arena<usize>) -> (n: usize)
    ensures
        n == arena_words(*arena).len(),
{
    arena.len()
}

/// `typed_arena::Arena::alloc_extend`, fed `count` copies of `word`: the
/// words are appended behind those already there. Within the room that the
/// arena was made with, the first chunk takes them and nothing else moves.
#[verifier::external_body]
fn arena_alloc_extend(arena: &mut Arena<usize>, word: usize, count: usize)
    requires
        arena_words(*old(arena)).len() + count <= arena_limit(*old(arena)),
    ensures
        arena_words(*final(arena)) == arena_words(*old(arena)) + Seq::new(
            count as nat,
            |i: int| word,
        ),
        arena_limit(*final(arena)) == arena_limit(*old(arena)),
{
    arena.alloc_extend(core::iter::repeat(word).take(count));
}

/// `typed_arena::Arena::iter_mut`, advanced to the word at `index`: the
/// iterator yields the words in allocation order, each as a mutable
/// reference, so what is written through the reference replaces that word
/// and no other.
#[verifier::external_body]
fn arena_slot(arena: &mut Arena<usize>, index: usize) -> (slot: &mut usize)
    requires
        index < arena_words(*old(arena)).len(),
    ensures
        *slot == arena_words(*old(arena))[index as int],
        arena_words(*final(arena)) == arena_words(*old(arena)).update(index as int, *final(slot)),
        arena_limit(*final(arena)) == arena_limit(*old(arena)),
{
    arena.iter_mut().nth(index).unwrap()
}

/// The byte of `word` at position `i`, counting from the least significant.
pub open spec fn byte_of(word: int, i: nat) -> int
    decreases i,
{
    if i == 0 {
        word % 256
    } else {
        byte_of(word / 256, (i - 1) as nat)
    }
}

/// The number whose `n` lowest bytes are all `byte`.
pub open spec fn replicated(byte: u8, n: nat) -> int
    decreases n,
{
    if n == 0 {
        0
    } else {
        byte + 256 * replicated(byte, (n - 1) as nat)
    }
}

/// The machine word whose every byte is `byte`.
pub open spec fn spec_fill_word(byte: u8) -> usize {
    replicated(byte, CANARY_SIZE as nat) as usize
}

/// Each of the `n` lowest bytes of `replicated(byte, n)` is `byte`.
pub proof fn lemma_replicated_bytes(byte: u8, n: nat, i: nat)
    requires
        i < n,
    ensures
        byte_of(replicated(byte, n), i) == byte,
    decreases n,
{
    let rest = replicated(byte, (n - 1) as nat);
    assert((byte + 256 * rest) % 256 == byte);
    assert((byte + 256 * rest) / 256 == rest);
    if i > 0 {
        lemma_replicated_bytes(byte, (n - 1) as nat, (i - 1) as nat);
    }
}

/// A fill word fits in a machine word, every byte of it is the fill byte,
/// whatever the byte order, and the fill word of zero is zero.
pub proof fn lemma_fill_word_bytes(byte: u8, i: nat)
    requires
        i < CANARY_SIZE,
    ensures
        spec_fill_word(byte) == replicated(byte, CANARY_SIZE as nat),
        byte_of(spec_fill_word(byte) as int, i) == byte,
        spec_fill_word(0) == 0,
{
    assert(CANARY_SIZE == 4 || CANARY_SIZE == 8);
    reveal_with_fuel(replicated, 9);
    lemma_replicated_bytes(byte, CANARY_SIZE as nat, i);
}

/// Replicates `byte` across a full machine word.
pub fn fill_word(byte: u8) -> (word: usize)
    ensures
        word == spec_fill_word(byte),
{
    proof {
        assert(CANARY_SIZE == 4 || CANARY_SIZE == 8);
        reveal_with_fuel(replicated, 9);
    }
    let low: usize = (byte as usize) * 0x0101_0101;
    if CANARY_SIZE == 4 {
        low
    } else {
        let high: usize = low * 0x1_0000 * 0x1_0000;
        high + low
    }
}

/// What a heap is, to its callers.
pub struct HeapView {
    /// The words handed out so far, in the order of allocation.
    pub words: Seq<usize>,
    /// The fill rotation and the padding.
    pub config: Config,
    /// The number of words that the arena can hold.
    pub capacity: nat,
}

/// The freestanding allocator's state: the arena and the configuration.
pub struct Heap {
    config: Config,
    arena: Arena<usize>,
    capacity: usize,
}

impl View for Heap {
    type V = HeapView;

    closed spec fn view(&self) -> HeapView {
        HeapView {
            words: arena_words(self.arena),
            config: self.config,
            capacity: self.capacity as nat,
        }
    }
}

/// The block that a successful allocation of `total` bytes appends: the
/// header word, which records `total`, then words that hold `word`.
pub open spec fn fresh_block(total: usize, word: usize) -> Seq<usize> {
    Seq::new(
        spec_words_for(total) as nat,
        |i: int|
            if i == 0 {
                total
            } else {
                word
            },
    )
}

/// Whether the heap has room for a request of `len` bytes: the total size
/// fits in a machine word and its words fit in what is left of the arena.
pub open spec fn grants(heap: HeapView, len: usize) -> bool {
    &&& spec_full_len(len, heap.config.alloc_extra_mem) <= usize::MAX
    &&& heap.words.len() + spec_words_for(spec_full_len(len, heap.config.alloc_extra_mem) as usize)
        <= heap.capacity
}

/// The heap after a successful allocation of `len` bytes whose words behind
/// the header hold `word`.
pub open spec fn extended(heap: HeapView, len: usize, word: usize) -> HeapView {
    HeapView {
        words: heap.words + fresh_block(
            spec_full_len(len, heap.config.alloc_extra_mem) as usize,
            word,
        ),
        config: rotated(heap.config),
        capacity: heap.capacity,
    }
}

/// The pointer that the next successful allocation returns: the byte offset
/// in the arena of the word behind the new header.
pub open spec fn next_pointer(heap: HeapView) -> int {
    (heap.words.len() + 1) * CANARY_SIZE
}

/// Whether `ptr` is the byte offset of a word that has a header word in
/// front of it in the arena.
pub open spec fn is_pointer(heap: HeapView, ptr: usize) -> bool {
    &&& ptr as int % CANARY_SIZE as int == 0
    &&& CANARY_SIZE <= ptr
    &&& ptr as int / CANARY_SIZE as int <= heap.words.len()
}

/// The words that a resize carries over: enough to hold the smaller of the
/// new length and the recorded size, as far as `available` words reach.
pub open spec fn carried_words(new_len: usize, orig_len: usize, available: int) -> int {
    let wanted = spec_words_for(spec_copy_len(new_len, orig_len));
    if wanted <= available {
        wanted
    } else {
        available
    }
}

/// `words` with the `n` words from `to` on replaced by the `n` words that
/// `words` holds from `from` on.
pub open spec fn moved(words: Seq<usize>, from: int, to: int, n: int) -> Seq<usize> {
    Seq::new(
        words.len(),
        |i: int|
            if to <= i < to + n {
                words[from + (i - to)]
            } else {
                words[i]
            },
    )
}

impl Heap {
    /// The heap's invariant: it has allocated no more than its capacity, its
    /// capacity is that of the whole arena, and it reserves no padding.
    pub closed spec fn wf(&self) -> bool {
        &&& self.capacity == arena_limit(self.arena)
        &&& arena_words(self.arena).len() <= self.capacity
        &&& self.capacity * CANARY_SIZE == ARENA_SIZE_BYTES
        &&& self.config.alloc_extra_mem == 0
    }

    /// What the invariant says in terms of the view.
    pub proof fn lemma_wf(&self)
        requires
            self.wf(),
        ensures
            self@.words.len() <= self@.capacity,
            self@.capacity == ARENA_SIZE_BYTES as int / CANARY_SIZE as int,
            self@.capacity * CANARY_SIZE == ARENA_SIZE_BYTES,
            self@.config.alloc_extra_mem == 0,
    {
        lemma_word_multiple(self.capacity as int);
    }

    /// The number of words allocated so far.
    pub fn len(&self) -> (n: usize)
        ensures
            n == self@.words.len(),
    {
        arena_len(&self.arena)
    }

    /// The number of words that the arena can hold.
    pub fn capacity(&self) -> (n: usize)
        ensures
            n == self@.capacity,
    {
        self.capacity
    }

    /// The configuration as it stands.
    pub fn config(&self) -> (config: Config)
        ensures
            config == self@.config,
    {
        self.config
    }

    /// The word at `index`, to read or to write, or `None` where the arena
    /// has not come that far.
    pub fn word_mut(&mut self, index: usize) -> (slot: Option<&mut usize>)
        requires
            old(self).wf(),
        ensures
            slot is Some <==> index < old(self)@.words.len(),
            slot is Some ==> {
                &&& *slot->0 == old(self)@.words[index as int]
                &&& final(self)@ == (HeapView {
                    words: old(self)@.words.update(index as int, *final(slot->0)),
                    ..old(self)@
                })
                &&& final(self).wf()
            },
            slot is None ==> *final(self) == *old(self),
    {
        if index < arena_len(&self.arena) {
            Some(arena_slot(&mut self.arena, index))
        } else {
            None
        }
    }

    /// Reads the word at `index`, or `None` where the arena has not come
    /// that far.
    pub fn word(&mut self, index: usize) -> (word: Option<usize>)
        requires
            old(self).wf(),
        ensures
            final(self).wf(),
            final(self)@ == old(self)@,
            word == (if index < old(self)@.words.len() {
                Some(old(self)@.words[index as int])
            } else {
                None
            }),
    {
        if index < arena_len(&self.arena) {
            let value: usize = *arena_slot(&mut self.arena, index);
            assert(arena_words(self.arena) =~= arena_words(old(self).arena));
            Some(value)
        } else {
            None
        }
    }
}

/// Sets the freestanding allocator up: an empty arena of
/// [`ARENA_SIZE_BYTES`] bytes, counted in machine words, a fill rotation
/// that starts at zero, and no padding.
pub fn libdiffuzz_init_config() -> (heap: Heap)
    ensures
        heap.wf(),
        heap@ == (HeapView {
            words: Seq::<usize>::empty(),
            config: Config { mem_init: 0, alloc_extra_mem: 0 },
            capacity: (ARENA_SIZE_BYTES / CANARY_SIZE) as nat,
        }),
{
    assert(CANARY_SIZE == 4 || CANARY_SIZE == 8);
    assert(ARENA_SIZE_BYTES == 0x80_0000);
    let capacity: usize = ARENA_SIZE_BYTES / CANARY_SIZE;
    assert(capacity * CANARY_SIZE == ARENA_SIZE_BYTES);
    let mut config = Config::new();
    config.alloc_extra_mem = 0;
    Heap { config, arena: arena_with_capacity(capacity), capacity }
}

/// Allocates `len` bytes from the arena. The block takes the total size
/// rounded up to whole words: its first word records the total size, every
/// word behind it holds the current fill byte in each of its bytes, and the
/// rotation advances once. The result is the byte offset of the word behind
/// the header. The request fails, touching nothing, where the total size
/// overflows or the arena has too few words left.
pub fn malloc(heap: &mut Heap, len: usize) -> (ptr: Option<usize>)
    requires
        old(heap).wf(),
    ensures
        final(heap).wf(),
        ptr is Some <==> grants(old(heap)@, len),
        ptr is Some ==> {
            &&& ptr->0 == next_pointer(old(heap)@)
            &&& final(heap)@ == extended(
                old(heap)@,
                len,
                spec_fill_word(old(heap)@.config.mem_init),
            )
        },
        ptr is None ==> final(heap)@ == old(heap)@,
{
    proof {
        heap.lemma_wf();
    }
    let alloc_extra_mem: usize = heap.config.alloc_extra_mem;
    let total: usize = match full_len(len, alloc_extra_mem) {
        Some(x) => x,
        None => {
            return None;
        },
    };
    let count: usize = words_for(total);
    let used: usize = arena_len(&heap.arena);
    if count > heap.capacity - used {
        return None;
    }
    let word: usize = fill_word(get_mem_init(&mut heap.config));
    arena_alloc_extend(&mut heap.arena, word, count);
    *arena_slot(&mut heap.arena, used) = total;
    assert(arena_words(heap.arena) =~= arena_words(old(heap).arena) + fresh_block(total, word));
    assert((used + 1) * CANARY_SIZE <= ARENA_SIZE_BYTES) by (nonlinear_arith)
        requires
            used + 1 <= heap.capacity,
            heap.capacity * CANARY_SIZE == ARENA_SIZE_BYTES,
    ;
    Some((used + 1) * CANARY_SIZE)
}

/// Allocates an array of `n_items` items of `item_len` bytes each, zeroed.
/// As [`malloc`], but every word behind the header holds zero. The request
/// also fails where the product of the two counts overflows.
pub fn calloc(heap: &mut Heap, n_items: usize, item_len: usize) -> (ptr: Option<usize>)
    requires
        old(heap).wf(),
    ensures
        final(heap).wf(),
        ptr is Some <==> {
            &&& spec_array_len(n_items, item_len) <= usize::MAX
            &&& grants(old(heap)@, spec_array_len(n_items, item_len) as usize)
        },
        ptr is Some ==> {
            &&& ptr->0 == next_pointer(old(heap)@)
            &&& final(heap)@ == extended(old(heap)@, spec_array_len(n_items, item_len) as usize, 0)
        },
        ptr is None ==> final(heap)@ == old(heap)@,
{
    let len: usize = match array_len(n_items, item_len) {
        Some(x) => x,
        None => {
            return None;
        },
    };
    let ptr: usize = match malloc(heap, len) {
        Some(p) => p,
        None => {
            return None;
        },
    };
    let ghost filled = heap@;
    let ghost total = spec_full_len(len, old(heap)@.config.alloc_extra_mem) as usize;
    let first: usize = ptr / CANARY_SIZE;
    let end: usize = arena_len(&heap.arena);
    let mut i: usize = first;
    proof {
        heap.lemma_wf();
        assert(CANARY_SIZE == 4 || CANARY_SIZE == 8);
        lemma_word_multiple(old(heap)@.words.len() as int + 1);
        assert(first == old(heap)@.words.len() + 1);
        lemma_words_for(total);
    }
    while i < end
        invariant
            heap.wf(),
            first <= i <= end,
            end == heap@.words.len(),
            first >= 1,
            end == first - 1 + spec_words_for(total),
            heap@.config == filled.config,
            heap@.capacity == filled.capacity,
            heap@.words.len() == filled.words.len(),
            forall|j: int| 0 <= j < first ==> heap@.words[j] == filled.words[j],
            forall|j: int| first <= j < i ==> heap@.words[j] == 0,
        decreases end - i,
    {
        *arena_slot(&mut heap.arena, i) = 0;
        i = i + 1;
    }
    proof {
        let expected = old(heap)@.words + fresh_block(total, 0);
        let word = spec_fill_word(old(heap)@.config.mem_init);
        assert(filled.words == old(heap)@.words + fresh_block(total, word));
        assert(heap@.words.len() == expected.len());
        assert forall|j: int| 0 <= j < expected.len() implies heap@.words[j] == expected[j] by {
            if j < first {
                assert(heap@.words[j] == filled.words[j]);
            }
        }
        assert(heap@.words =~= expected);
    }
    Some(ptr)
}

/// Releases an allocation, which in this variant does nothing: the arena
/// never takes memory back, so what a released pointer refers to stays as it
/// is and is never handed out again.
pub fn free(heap: &mut Heap, ptr: Option<usize>)
    ensures
        *final(heap) == *old(heap),
{
}

/// Moves an allocation into a fresh block of `new_len` bytes. With no old
/// pointer this is [`malloc`]. Otherwise the header in front of `orig` is
/// read, a new block is allocated as by [`malloc`], drawing a fill byte of
/// its own, and the words that hold the smaller of the new length and the
/// recorded size are copied from the old region to the new one; the old
/// block is released, which changes nothing. The result is the new pointer.
/// Where `orig` is no pointer into the arena, or the new block cannot be
/// had, the result is `None` and nothing is touched.
pub fn realloc(heap: &mut Heap, orig: Option<usize>, new_len: usize) -> (ptr: Option<usize>)
    requires
        old(heap).wf(),
    ensures
        final(heap).wf(),
        ptr is Some <==> grants(old(heap)@, new_len) && (orig is Some ==> is_pointer(
            old(heap)@,
            orig->0,
        )),
        ptr is Some ==> {
            let fresh = extended(old(heap)@, new_len, spec_fill_word(old(heap)@.config.mem_init));
            &&& ptr->0 == next_pointer(old(heap)@)
            &&& match orig {
                Some(p) => {
                    let from = p as int / CANARY_SIZE as int;
                    let to = old(heap)@.words.len() as int + 1;
                    let n = carried_words(
                        new_len,
                        old(heap)@.words[from - 1],
                        fresh.words.len() - from,
                    );
                    final(heap)@ == (HeapView { words: moved(fresh.words, from, to, n), ..fresh })
                },
                None => final(heap)@ == fresh,
            }
        },
        ptr is None ==> final(heap)@ == old(heap)@,
{
    let p: usize = match orig {
        Some(p) => p,
        None => {
            return malloc(heap, new_len);
        },
    };
    proof {
        heap.lemma_wf();
        assert(CANARY_SIZE == 4 || CANARY_SIZE == 8);
    }
    let used: usize = arena_len(&heap.arena);
    if p % CANARY_SIZE != 0 || p < CANARY_SIZE || p / CANARY_SIZE > used {
        return None;
    }
    let from: usize = p / CANARY_SIZE;
    let orig_len: usize = *arena_slot(&mut heap.arena, from - 1);
    assert(arena_words(heap.arena) =~= arena_words(old(heap).arena));
    assert(heap@ == old(heap)@);
    let new_ptr: usize = match malloc(heap, new_len) {
        Some(q) => q,
        None => {
            return None;
        },
    };
    let ghost fresh = heap@;
    let to: usize = new_ptr / CANARY_SIZE;
    let end: usize = arena_len(&heap.arena);
    let wanted: usize = words_for(copy_len(new_len, orig_len));
    let n: usize = if wanted <= end - from {
        wanted
    } else {
        end - from
    };
    proof {
        heap.lemma_wf();
        lemma_word_multiple(used + 1);
        assert(to == used + 1);
        let total = spec_full_len(new_len, 0) as usize;
        lemma_words_for_header(new_len);
        lemma_words_for_monotone(spec_copy_len(new_len, orig_len), new_len);
        assert(end == used + spec_words_for(total));
    }
    let mut kept: Vec<usize> = Vec::new();
    let mut i: usize = 0;
    while i < n
        invariant
            heap.wf(),
            heap@ == fresh,
            i <= n,
            from + n <= end,
            end == fresh.words.len(),
            kept@.len() == i,
            forall|j: int| 0 <= j < i ==> kept@[j] == fresh.words[from + j],
        decreases n - i,
    {
        let value: usize = *arena_slot(&mut heap.arena, from + i);
        assert(arena_words(heap.arena) =~= fresh.words);
        kept.push(value);
        i = i + 1;
    }
    let mut k: usize = 0;
    assert(fresh.words =~= moved(fresh.words, from as int, to as int, 0));
    while k < n
        invariant
            heap.wf(),
            k <= n,
            from + n <= end,
            to + n <= end,
            end == fresh.words.len(),
            kept@.len() == n,
            forall|j: int| 0 <= j < n ==> kept@[j] == fresh.words[from + j],
            heap@ == (HeapView { words: moved(fresh.words, from as int, to as int, k as int), ..fresh }),
        decreases n - k,
    {
        *arena_slot(&mut heap.arena, to + k) = kept[k];
        k = k + 1;
        assert(heap@.words =~= moved(fresh.words, from as int, to as int, k as int));
    }
    free(heap, orig);
    Some(new_ptr)
}

/// The pointer that an allocation returns has the block's header in the
/// word in front of it, and the header records at least the requested length
/// and the header itself. The words behind the pointer hold at least the
/// requested bytes, so a write anywhere in them stays inside the block.
pub proof fn lemma_header_in_front(heap: HeapView, len: usize, word: usize)
    requires
        grants(heap, len),
    ensures
        ({
            let after = extended(heap, len, word);
            let at = next_pointer(heap) / (CANARY_SIZE as int);
            let total = spec_full_len(len, heap.config.alloc_extra_mem);
            &&& next_pointer(heap) % (CANARY_SIZE as int) == 0
            &&& at - 1 == heap.words.len()
            &&& after.words.len() == heap.words.len() + spec_words_for(total as usize)
            &&& at <= after.words.len()
            &&& after.words[at - 1] == total
            &&& total >= len + CANARY_SIZE
            &&& (after.words.len() - at) * CANARY_SIZE >= len + heap.config.alloc_extra_mem
        }),
{
    let total = spec_full_len(len, heap.config.alloc_extra_mem) as usize;
    lemma_word_multiple(heap.words.len() as int + 1);
    lemma_words_for(total);
    let count = spec_words_for(total);
    assert((count - 1) * CANARY_SIZE == count * CANARY_SIZE - CANARY_SIZE) by (nonlinear_arith);
}

/// A read of any byte of a freshly allocated region sees the fill byte of
/// that allocation: every word behind the header holds it in each of its
/// bytes. The allocation that follows draws another byte.
pub proof fn lemma_fresh_region_reads_fill(heap: HeapView, len: usize, j: int, i: nat)
    requires
        grants(heap, len),
        i < CANARY_SIZE,
    ensures
        ({
            let byte = heap.config.mem_init;
            let after = extended(heap, len, spec_fill_word(byte));
            &&& (heap.words.len() < j < after.words.len() ==> after.words[j] == spec_fill_word(byte))
            &&& byte_of(spec_fill_word(byte) as int, i) == byte
            &&& after.config.mem_init != byte
        }),
{
    lemma_fill_word_bytes(heap.config.mem_init, i);
}

/// In a zeroed allocation every word behind the header is zero, and so is
/// each of its bytes.
pub proof fn lemma_zeroed_region(heap: HeapView, len: usize, j: int, i: nat)
    requires
        grants(heap, len),
    ensures
        ({
            let after = extended(heap, len, 0);
            &&& (heap.words.len() < j < after.words.len() ==> after.words[j] == 0)
            &&& byte_of(0, i) == 0
        }),
    decreases i,
{
    if i > 0 {
        lemma_zeroed_region(heap, len, j, (i - 1) as nat);
    }
}

/// Memory that was handed out is never handed out again: an allocation
/// leaves every word that the arena held before as it was, released or not,
/// and its block begins behind all of them, so the new pointer lies behind
/// every pointer that existed before.
pub proof fn lemma_never_handed_out_twice(heap: HeapView, len: usize, word: usize, ptr: usize)
    requires
        grants(heap, len),
        is_pointer(heap, ptr),
    ensures
        ({
            let after = extended(heap, len, word);
            &&& after.words.subrange(0, heap.words.len() as int) == heap.words
            &&& after.capacity == heap.capacity
            &&& next_pointer(heap) > ptr
            &&& is_pointer(after, ptr)
        }),
{
    let after = extended(heap, len, word);
    assert(after.words.subrange(0, heap.words.len() as int) =~= heap.words);
    lemma_pointer_bound(heap, ptr);
}

/// A pointer into the arena is the byte offset of one of its words, or of
/// the end of the arena.
pub proof fn lemma_pointer_bound(heap: HeapView, ptr: usize)
    requires
        is_pointer(heap, ptr),
    ensures
        ptr == (ptr as int / CANARY_SIZE as int) * CANARY_SIZE,
        1 <= ptr as int / CANARY_SIZE as int <= heap.words.len(),
        ptr < next_pointer(heap),
{
    let at = ptr as int / CANARY_SIZE as int;
    lemma_word_split(ptr as int);
    assert(at * CANARY_SIZE < (heap.words.len() + 1) * CANARY_SIZE) by (nonlinear_arith)
        requires
            at <= heap.words.len(),
            CANARY_SIZE > 0,
    ;
}

/// A resize always relocates, and it keeps the front of the old region: the
/// new pointer differs from the old one, and every byte below the smaller of
/// the new length and the recorded size lies in a word that the new region
/// holds as the old region held it.
pub proof fn lemma_resize_keeps_front(heap: HeapView, ptr: usize, new_len: usize, byte_index: int)
    requires
        grants(heap, new_len),
        is_pointer(heap, ptr),
        heap.config.alloc_extra_mem == 0,
        0 <= byte_index < spec_copy_len(
            new_len,
            heap.words[ptr as int / CANARY_SIZE as int - 1],
        ),
    ensures
        ({
            let fresh = extended(heap, new_len, spec_fill_word(heap.config.mem_init));
            let from = ptr as int / CANARY_SIZE as int;
            let to = heap.words.len() as int + 1;
            let n = carried_words(new_len, heap.words[from - 1], fresh.words.len() - from);
            let after = moved(fresh.words, from, to, n);
            let j = byte_index / (CANARY_SIZE as int);
            &&& next_pointer(heap) != ptr
            &&& after.len() == fresh.words.len()
            &&& to + n <= after.len()
            &&& (from + j < fresh.words.len() ==> j < n && after[to + j] == fresh.words[from + j])
            &&& (from + j < heap.words.len() ==> after[to + j] == heap.words[from + j])
            &&& after.subrange(0, heap.words.len() as int) == heap.words
            &&& after[to - 1] == spec_full_len(new_len, 0)
        }),
{
    let fresh = extended(heap, new_len, spec_fill_word(heap.config.mem_init));
    let from = ptr as int / CANARY_SIZE as int;
    let to = heap.words.len() as int + 1;
    let orig_len = heap.words[from - 1];
    let copied = spec_copy_len(new_len, orig_len);
    let n = carried_words(new_len, orig_len, fresh.words.len() - from);
    let after = moved(fresh.words, from, to, n);
    let j = byte_index / (CANARY_SIZE as int);
    let total = spec_full_len(new_len, 0) as usize;
    lemma_pointer_bound(heap, ptr);
    lemma_words_for_header(new_len);
    lemma_words_for_monotone(copied, new_len);
    lemma_words_for(copied);
    lemma_word_split(byte_index);
    assert(j < spec_words_for(copied)) by (nonlinear_arith)
        requires
            j * CANARY_SIZE <= byte_index,
            byte_index < copied,
            copied <= spec_words_for(copied) * CANARY_SIZE,
            CANARY_SIZE > 0,
    ;
    assert(after.subrange(0, heap.words.len() as int) =~= heap.words);
}

} // verus!
