//! The host-backed variant: every allocation is a mapping of its own, which
//! the host creates and destroys. The functions here decide how large a
//! mapping must be, prepare the mapping that the host hands in (its header
//! word and the bytes behind it), and say what is to be unmapped.

use vstd::prelude::*;
use vstd::string::StringSliceAdditionalSpecFns;
use rand::Rng;
use crate::{get_mem_init, rotated, Config, CANARY_SIZE};
use crate::padding::{extra_memory, spec_extra_memory};
use crate::region::{carried_over, carry_over, fill, filled};
use crate::sizing::{array_len, copy_len, full_len, spec_array_len, spec_copy_len, spec_full_len};

verus! {

/// Draws one byte from `rand`'s thread-local generator
/// (`rand::thread_rng().gen::<u8>()`). Nothing is claimed of the byte: it
/// differs from call to call and from run to run.
#[verifier::external_body]
fn random_byte() -> (byte: u8) {
    rand::thread_rng().gen::<u8>()
}

/// The bytes of an optional setting.
pub open spec fn setting_bytes(text: Option<&str>) -> Option<Seq<u8>> {
    match text {
        Some(t) => Some(t.spec_bytes()),
        None => None,
    }
}

/// The configuration that results from a seed for the rotation, where one was
/// drawn, and the text of the extra-padding setting, where it is set.
pub open spec fn configured(config: Config, seed: Option<u8>, text: Option<Seq<u8>>) -> Config {
    Config {
        mem_init: match seed {
            Some(byte) => byte,
            None => config.mem_init,
        },
        alloc_extra_mem: spec_extra_memory(text),
    }
}

/// Establishes the configuration from values already read: `seed` replaces
/// the rotation counter where it is given, and the padding becomes the number
/// in `alloc_extra_mem`, or zero where that is absent or malformed.
pub fn configure(config: &mut Config, seed: Option<u8>, alloc_extra_mem: Option<&str>)
    ensures
        *final(config) == configured(*old(config), seed, setting_bytes(alloc_extra_mem)),
{
    match seed {
        Some(byte) => {
            config.mem_init = byte;
        },
        None => {},
    }
    config.alloc_extra_mem = extra_memory(alloc_extra_mem);
}

/// Establishes the configuration at startup. In nondeterministic mode the
/// rotation starts from a random byte, so that the fill sequence differs from
/// run to run; otherwise the counter stays as it was. The padding is set as
/// [`configure`] does.
pub fn libdiffuzz_init_config(
    config: &mut Config,
    nondeterministic: bool,
    alloc_extra_mem: Option<&str>,
)
    ensures
        final(config).alloc_extra_mem == spec_extra_memory(setting_bytes(alloc_extra_mem)),
        !nondeterministic ==> final(config).mem_init == old(config).mem_init,
{
    let seed: Option<u8> = if nondeterministic {
        Some(random_byte())
    } else {
        None
    };
    configure(config, seed, alloc_extra_mem);
}

/// Whether a mapping whose bytes behind the header number `body_len` is the
/// one that a request of `len` bytes calls for.
pub open spec fn mapping_fits(config: Config, len: usize, body_len: nat) -> bool {
    &&& spec_full_len(len, config.alloc_extra_mem) <= usize::MAX
    &&& body_len == len + config.alloc_extra_mem
}

/// The bytes behind the header of a zeroed allocation: `len` zeros, then the
/// fill byte to the end.
pub open spec fn zeroed_then_filled(total: nat, len: int, byte: u8) -> Seq<u8> {
    Seq::new(
        total,
        |i: int|
            if i < len {
                0u8
            } else {
                byte
            },
    )
}

/// Where a mapping is to be released: it begins `rewind` bytes in front of
/// the user pointer and is `len` bytes long.
#[derive(Clone, Copy, Debug, PartialEq, Eq, Structural)]
pub struct Unmap {
    pub rewind: usize,
    pub len: usize,
}

/// The outcome of a successful resize: the user pointer's offset in the new
/// mapping, and the old mapping to release, if there was one.
#[derive(Clone, Copy, Debug, PartialEq, Eq, Structural)]
pub struct Moved {
    pub ptr: usize,
    pub release: Option<Unmap>,
}

/// Prepares a fresh mapping for a request of `len` bytes. `header` is the
/// mapping's first machine word and `body` the bytes behind it. On success
/// the header holds the mapping's total size, every byte of the body holds
/// the current fill byte, the rotation has advanced by one, and the result
/// is the offset of the user pointer from the start of the mapping. The
/// request fails, touching nothing, where the total size overflows or the
/// mapping is not of exactly that size.
pub fn malloc(config: &mut Config, len: usize, header: &mut usize, body: &mut [u8]) -> (ptr:
    Option<usize>)
    ensures
        ptr is Some <==> mapping_fits(*old(config), len, old(body)@.len()),
        ptr is Some ==> {
            &&& ptr == Some(CANARY_SIZE)
            &&& *final(header) == spec_full_len(len, old(config).alloc_extra_mem)
            &&& final(body)@ == filled(
                old(body)@,
                0,
                len + old(config).alloc_extra_mem,
                old(config).mem_init,
            )
            &&& *final(config) == rotated(*old(config))
        },
        ptr is None ==> {
            &&& *final(header) == *old(header)
            &&& final(body)@ == old(body)@
            &&& *final(config) == *old(config)
        },
{
    let alloc_extra_mem: usize = config.alloc_extra_mem;
    let total: usize = match full_len(len, alloc_extra_mem) {
        Some(x) => x,
        None => {
            return None;
        },
    };
    if body.len() != total - CANARY_SIZE {
        return None;
    }
    *header = total;
    let byte: u8 = get_mem_init(config);
    fill(body, 0, len + alloc_extra_mem, byte);
    Some(CANARY_SIZE)
}

/// Prepares a fresh mapping for an array of `n_items` items of `item_len`
/// bytes each. As [`malloc`], but the requested bytes are zeroed and only the
/// padding behind them holds the fill byte. The request also fails where the
/// product of the two counts overflows.
pub fn calloc(
    config: &mut Config,
    n_items: usize,
    item_len: usize,
    header: &mut usize,
    body: &mut [u8],
) -> (ptr: Option<usize>)
    ensures
        ptr is Some <==> {
            &&& spec_array_len(n_items, item_len) <= usize::MAX
            &&& mapping_fits(
                *old(config),
                spec_array_len(n_items, item_len) as usize,
                old(body)@.len(),
            )
        },
        ptr is Some ==> {
            &&& ptr == Some(CANARY_SIZE)
            &&& *final(header) == spec_array_len(n_items, item_len) + CANARY_SIZE + old(
                config,
            ).alloc_extra_mem
            &&& final(body)@ == zeroed_then_filled(
                old(body)@.len(),
                spec_array_len(n_items, item_len),
                old(config).mem_init,
            )
            &&& *final(config) == rotated(*old(config))
        },
        ptr is None ==> {
            &&& *final(header) == *old(header)
            &&& final(body)@ == old(body)@
            &&& *final(config) == *old(config)
        },
{
    let len: usize = match array_len(n_items, item_len) {
        Some(x) => x,
        None => {
            return None;
        },
    };
    let alloc_extra_mem: usize = config.alloc_extra_mem;
    let total: usize = match full_len(len, alloc_extra_mem) {
        Some(x) => x,
        None => {
            return None;
        },
    };
    if body.len() != total - CANARY_SIZE {
        return None;
    }
    *header = total;
    fill(body, 0, len, 0);
    let byte: u8 = get_mem_init(config);
    fill(body, len, len + alloc_extra_mem, byte);
    assert(body@ =~= zeroed_then_filled(old(body)@.len(), len as int, byte));
    Some(CANARY_SIZE)
}

/// Decides what releasing a pointer unmaps. `header` is the word in front of
/// the pointer, or `None` for the null pointer. Releasing null does nothing;
/// otherwise the whole mapping goes in one piece: it starts one header in
/// front of the pointer and has the length that the header records.
pub fn free(header: Option<usize>) -> (unmap: Option<Unmap>)
    ensures
        unmap == match header {
            Some(len) => Some(Unmap { rewind: CANARY_SIZE, len: len }),
            None => None,
        },
{
    match header {
        Some(len) => Some(Unmap { rewind: CANARY_SIZE, len }),
        None => None,
    }
}

/// How many bytes a resize carries over from an old region of `orig_body_len`
/// bytes whose header records `orig_len`: the smaller of the new length and
/// the recorded size, as far as the old region reaches.
pub open spec fn carried_len(new_len: usize, orig_len: usize, orig_body_len: nat) -> int {
    if spec_copy_len(new_len, orig_len) <= orig_body_len {
        spec_copy_len(new_len, orig_len) as int
    } else {
        orig_body_len as int
    }
}

/// Moves an allocation into a fresh mapping for `new_len` bytes. `orig` is
/// the old allocation, as its header word and the bytes behind the header, or
/// `None` for the null pointer; `header` and `body` are the new mapping. The
/// new mapping is prepared as by [`malloc`], drawing a fill byte of its own.
/// Then the front of the old region is carried over and the old mapping is
/// named for release. With a null old pointer this is [`malloc`] and nothing is
/// released. Where the new mapping cannot be prepared the result is `None`
/// and nothing is touched: the old allocation stays as it is.
pub fn realloc(
    config: &mut Config,
    orig: Option<(usize, &[u8])>,
    new_len: usize,
    header: &mut usize,
    body: &mut [u8],
) -> (moved: Option<Moved>)
    ensures
        moved is Some <==> mapping_fits(*old(config), new_len, old(body)@.len()),
        moved is Some ==> {
            &&& moved->0.ptr == CANARY_SIZE
            &&& *final(header) == spec_full_len(new_len, old(config).alloc_extra_mem)
            &&& *final(config) == rotated(*old(config))
            &&& match orig {
                Some((orig_len, orig_body)) => {
                    &&& moved->0.release == Some(Unmap { rewind: CANARY_SIZE, len: orig_len })
                    &&& final(body)@ == carried_over(
                        filled(
                            old(body)@,
                            0,
                            new_len + old(config).alloc_extra_mem,
                            old(config).mem_init,
                        ),
                        orig_body@,
                        carried_len(new_len, orig_len, orig_body@.len()),
                    )
                },
                None => {
                    &&& moved->0.release is None
                    &&& final(body)@ == filled(
                        old(body)@,
                        0,
                        new_len + old(config).alloc_extra_mem,
                        old(config).mem_init,
                    )
                },
            }
        },
        moved is None ==> {
            &&& *final(header) == *old(header)
            &&& final(body)@ == old(body)@
            &&& *final(config) == *old(config)
        },
{
    let ptr: usize = match malloc(config, new_len, header, body) {
        Some(p) => p,
        None => {
            return None;
        },
    };
    match orig {
        Some((orig_len, orig_body)) => {
            let wanted: usize = copy_len(new_len, orig_len);
            let n: usize = if wanted <= orig_body.len() {
                wanted
            } else {
                orig_body.len()
            };
            carry_over(body, orig_body, n);
            Some(Moved { ptr, release: free(Some(orig_len)) })
        },
        None => Some(Moved { ptr, release: None }),
    }
}

/// The header of a prepared mapping records at least the requested length
/// and the header itself, and the bytes behind the header are exactly the
/// requested length and the padding: a write anywhere in them stays inside
/// the mapping.
pub proof fn lemma_header_covers_request(config: Config, len: usize, body_len: nat)
    requires
        mapping_fits(config, len, body_len),
    ensures
        spec_full_len(len, config.alloc_extra_mem) >= len + CANARY_SIZE,
        spec_full_len(len, config.alloc_extra_mem) == CANARY_SIZE + body_len,
        body_len >= len,
{
}

/// A read of any byte of a freshly prepared region, padding included, sees
/// the fill byte of that allocation, and the allocation that follows draws
/// another byte.
pub proof fn lemma_fresh_region_reads_fill(config: Config, len: usize, body: Seq<u8>, i: int)
    requires
        mapping_fits(config, len, body.len()),
        0 <= i < len + config.alloc_extra_mem,
    ensures
        filled(body, 0, len + config.alloc_extra_mem, config.mem_init)[i] == config.mem_init,
        rotated(config).mem_init != config.mem_init,
{
}

/// In a zeroed allocation the requested bytes all read zero, and the padding
/// behind them reads the fill byte.
pub proof fn lemma_zeroed_region(total: nat, len: int, byte: u8, i: int)
    requires
        0 <= i < total,
    ensures
        i < len ==> zeroed_then_filled(total, len, byte)[i] == 0,
        i >= len ==> zeroed_then_filled(total, len, byte)[i] == byte,
        zeroed_then_filled(total, len, byte).len() == total,
{
}

/// A resize keeps the front of the old region: every byte below the smaller
/// of the new length and the recorded size reads in the new region what it
/// read in the old one, as far as the old region reaches. The bytes behind
/// that keep the new allocation's fill.
pub proof fn lemma_resize_keeps_front(
    config: Config,
    new_len: usize,
    orig_len: usize,
    orig_body: Seq<u8>,
    body: Seq<u8>,
    i: int,
)
    requires
        mapping_fits(config, new_len, body.len()),
        0 <= i < body.len(),
    ensures
        ({
            let fresh = filled(body, 0, new_len + config.alloc_extra_mem, config.mem_init);
            let n = carried_len(new_len, orig_len, orig_body.len());
            let after = carried_over(fresh, orig_body, n);
            &&& after.len() == body.len()
            &&& n <= new_len
            &&& n <= orig_len
            &&& (orig_body.len() >= orig_len || orig_body.len() >= new_len ==> n == spec_copy_len(
                new_len,
                orig_len,
            ))
            &&& (i < n ==> after[i] == orig_body[i])
            &&& (i >= n ==> after[i] == config.mem_init)
        }),
{
}

} // verus!
