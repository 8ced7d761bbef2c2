//! A heap allocator for fuzzing: every allocation carries a size header in the
//! machine word in front of the user region and is pre-filled with a byte that
//! rotates from call to call, so that reads of uninitialised or stale memory
//! show up as changing garbage instead of comfortable zeros.
//!
//! Two variants share the sizing and fill rules: [`have_std`] works on
//! mappings that the host hands in one per allocation, [`no_std`] carves
//! allocations out of a fixed-capacity bump arena that never frees.

use vstd::prelude::*;

pub mod have_std;
pub mod no_std;
pub mod padding;
pub mod region;
pub mod sizing;

verus! {

/// Size in bytes of the header word that precedes every user region.
pub const CANARY_SIZE: usize = (usize::BITS / 8) as usize;

/// The allocator's configuration state: established once before the first
/// allocation, then consulted by every call.
#[derive(Clone, Copy, Debug)]
pub struct Config {
    /// Fill-rotation counter: its value is the byte written into the next
    /// fresh allocation.
    pub mem_init: u8,
    /// Extra bytes reserved behind the requested length of every allocation.
    pub alloc_extra_mem: usize,
}

/// The counter value that follows `counter` in the rotation.
pub open spec fn next_fill(counter: u8) -> u8 {
    if counter == u8::MAX {
        0u8
    } else {
        (counter + 1) as u8
    }
}

/// The configuration after one allocation has drawn its fill byte from it.
pub open spec fn rotated(config: Config) -> Config {
    Config { mem_init: next_fill(config.mem_init), alloc_extra_mem: config.alloc_extra_mem }
}

/// The configuration after `n` allocations have drawn their fill bytes.
pub open spec fn rotated_by(config: Config, n: nat) -> Config
    decreases n,
{
    if n == 0 {
        config
    } else {
        rotated(rotated_by(config, (n - 1) as nat))
    }
}

impl Config {
    /// The state before any configuration was read: the rotation starts at
    /// zero and no extra memory is reserved.
    pub fn new() -> (config: Config)
        ensures
            config.mem_init == 0,
            config.alloc_extra_mem == 0,
    {
        Config { mem_init: 0, alloc_extra_mem: 0 }
    }
}

/// Gets the current fill byte, then advances the rotation by one step,
/// wrapping from 255 to 0.
pub fn get_mem_init(config: &mut Config) -> (byte: u8)
    ensures
        byte == old(config).mem_init,
        *final(config) == rotated(*old(config)),
{
    let byte: u8 = config.mem_init;
    config.mem_init = byte.wrapping_add(1);
    byte
}

/// Two allocations in a row never draw the same fill byte, not even where the
/// rotation wraps around.
pub proof fn lemma_successive_fills_differ(config: Config)
    ensures
        rotated(config).mem_init != config.mem_init,
        rotated(config).alloc_extra_mem == config.alloc_extra_mem,
{
}

/// The fill byte repeats only after a whole turn of the rotation: for
/// `0 < n < 256` the byte drawn `n` allocations later differs from the
/// current one, and after exactly 256 allocations it is back.
pub proof fn lemma_rotation_period(config: Config, n: nat)
    ensures
        rotated_by(config, n).mem_init as int == (config.mem_init as int + n as int) % 256,
        rotated_by(config, n).alloc_extra_mem == config.alloc_extra_mem,
        0 < n < 256 ==> rotated_by(config, n).mem_init != config.mem_init,
        n == 256 ==> rotated_by(config, n) == config,
    decreases n,
{
    if n > 0 {
        lemma_rotation_period(config, (n - 1) as nat);
    }
}

} // verus!
