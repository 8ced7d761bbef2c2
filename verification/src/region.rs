//! Operations on the bytes of a user region: filling a range and carrying a
//! prefix over from another region.

use vstd::prelude::*;

verus! {

/// `bytes` with every position in `from..to` set to `byte`.
pub open spec fn filled(bytes: Seq<u8>, from: int, to: int, byte: u8) -> Seq<u8> {
    Seq::new(
        bytes.len(),
        |i: int|
            if from <= i < to {
                byte
            } else {
                bytes[i]
            },
    )
}

/// `dst` with its first `n` bytes replaced by the first `n` bytes of `src`.
pub open spec fn carried_over(dst: Seq<u8>, src: Seq<u8>, n: int) -> Seq<u8> {
    Seq::new(
        dst.len(),
        |i: int|
            if 0 <= i < n {
                src[i]
            } else {
                dst[i]
            },
    )
}

/// Sets every byte of `region` in `from..to` to `byte` and leaves the others
/// as they were.
pub fn fill(region: &mut [u8], from: usize, to: usize, byte: u8)
    requires
        from <= to <= old(region)@.len(),
    ensures
        final(region)@ == filled(old(region)@, from as int, to as int, byte),
{
    let mut i: usize = from;
    while i < to
        invariant
            from <= i <= to <= region@.len(),
            region@ == filled(old(region)@, from as int, i as int, byte),
        decreases to - i,
    {
        region[i] = byte;
        i = i + 1;
        assert(region@ =~= filled(old(region)@, from as int, i as int, byte));
    }
    assert(region@ =~= filled(old(region)@, from as int, to as int, byte));
}

/// Copies the first `n` bytes of `src` to the front of `dst` and leaves the
/// rest of `dst` as it was.
pub fn carry_over(dst: &mut [u8], src: &[u8], n: usize)
    requires
        n <= old(dst)@.len(),
        n <= src@.len(),
    ensures
        final(dst)@ == carried_over(old(dst)@, src@, n as int),
{
    let mut i: usize = 0;
    while i < n
        invariant
            i <= n <= dst@.len(),
            n <= src@.len(),
            dst@ == carried_over(old(dst)@, src@, i as int),
        decreases n - i,
    {
        dst[i] = src[i];
        i = i + 1;
        assert(dst@ =~= carried_over(old(dst)@, src@, i as int));
    }
    assert(dst@ =~= carried_over(old(dst)@, src@, n as int));
}

} // verus!
