use crate::cli::{MelodyLengthArg, NumNotesArg};
use crate::utils::{checked_pow, num_melodies};
use vstd::prelude::*;

verus! {

/// Maximum number of melodies to use for size estimatation.
pub const MAX_SIM_NUM_MELODIES: u64 = 200000;

/// Bytes that one melody takes in a tar archive: a header block and a data block.
pub const ENTRY_SIZE: u64 = 1024;

/// Block size where none is given.
pub const DEFAULT_BLOCK_SIZE: u64 = 512;

/// The estimate for all melodies, from the estimate for the simulated ones.
pub open spec fn sim_file_size(sim_num_melodies: u64, num_melodies: u64, size_estimate: u64) -> int {
    if sim_num_melodies == num_melodies {
        size_estimate as int
    } else if sim_num_melodies == MAX_SIM_NUM_MELODIES {
        ((num_melodies + MAX_SIM_NUM_MELODIES - 1) / MAX_SIM_NUM_MELODIES as int) * size_estimate
    } else {
        size_estimate * 5
    }
}

/// Given total number of melodies, the simulated number of melodies, and
/// resulting size estimate, generate the total estimated file size: the
/// estimate itself where every melody was simulated, the estimate times
/// the number of simulations needed where the simulation was capped, and
/// five times the estimate otherwise.
pub fn gen_sim_file_size(sim_num_melodies: u64, num_melodies: u64, size_estimate: u64) -> (size:
    u64)
    requires
        sim_file_size(sim_num_melodies, num_melodies, size_estimate) <= u64::MAX,
    ensures
        size == sim_file_size(sim_num_melodies, num_melodies, size_estimate),
{
    if sim_num_melodies == num_melodies {
        size_estimate
    } else if sim_num_melodies == MAX_SIM_NUM_MELODIES {
        // Round the number of simulations up
        let whole = num_melodies / MAX_SIM_NUM_MELODIES;
        let runs = if num_melodies % MAX_SIM_NUM_MELODIES == 0 {
            whole
        } else {
            whole + 1
        };
        assert(runs == (num_melodies + MAX_SIM_NUM_MELODIES - 1) / MAX_SIM_NUM_MELODIES as int);
        runs * size_estimate
    } else {
        size_estimate * 5
    }
}

/// Number of melodies to simulate: all of them up to the cap, else a fifth, capped.
pub open spec fn sim_num_melodies(num_melodies: u64) -> u64 {
    if num_melodies <= MAX_SIM_NUM_MELODIES {
        num_melodies
    } else if num_melodies / 5 < MAX_SIM_NUM_MELODIES {
        num_melodies / 5
    } else {
        MAX_SIM_NUM_MELODIES
    }
}

/// Generate number of melodies to use for estimation.
pub fn gen_sim_num_melodies(num_melodies: u64) -> (sim: u64)
    ensures
        sim == sim_num_melodies(num_melodies),
        sim <= num_melodies,
        sim <= MAX_SIM_NUM_MELODIES,
{
    if num_melodies <= MAX_SIM_NUM_MELODIES {
        num_melodies
    } else {
        let fifth = num_melodies / 5;
        if fifth < MAX_SIM_NUM_MELODIES {
            fifth
        } else {
            MAX_SIM_NUM_MELODIES
        }
    }
}

/// The block size that stands for `block_size`.
pub open spec fn resolve_block_size(block_size: Option<u64>) -> u64 {
    match block_size {
        Some(size) => size,
        None => DEFAULT_BLOCK_SIZE,
    }
}

/// A value and what is left of it after whole blocks; with blocks of size 0, the value.
pub open spec fn padded_value(value: u64, block_size: Option<u64>) -> int {
    let size = resolve_block_size(block_size);
    if size == 0 {
        value as int
    } else {
        value + value % size
    }
}

/// Pad value to align to block size. Default block size is `512` (bytes).
pub fn pad_value_to_block(value: u64, block_size: Option<u64>) -> (padded: u64)
    requires
        padded_value(value, block_size) <= u64::MAX,
    ensures
        padded == padded_value(value, block_size),
{
    let block_size = match block_size {
        Some(size) => size,
        None => DEFAULT_BLOCK_SIZE,
    };
    if block_size == 0 {
        value
    } else {
        let padding = value % block_size;
        value + padding
    }
}

/// Estimate of the output size of the tar file storage backend.
#[derive(Debug, Clone, Copy, PartialEq, Eq)]
pub struct EstimateTarDirective {
    pub num_notes: NumNotesArg,
    pub melody_length: MelodyLengthArg,
}

impl EstimateTarDirective {
    /// Estimated size in bytes of the archive of all melodies, or `None`
    /// where the number does not fit in 64 bits.
    pub fn size(&self) -> (r: Option<u64>)
        ensures
            match r {
                Some(bytes) => bytes == num_melodies(
                    self.num_notes.num_notes as nat,
                    self.melody_length.melody_length as nat,
                ) * ENTRY_SIZE,
                None => num_melodies(
                    self.num_notes.num_notes as nat,
                    self.melody_length.melody_length as nat,
                ) * ENTRY_SIZE > u64::MAX,
            },
    {
        proof {
            crate::partition::lemma_pow_nonnegative(
                self.num_notes.num_notes as nat,
                self.melody_length.melody_length as nat,
            );
        }
        match checked_pow(self.num_notes.num_notes as u64, self.melody_length.melody_length) {
            Some(count) => count.checked_mul(ENTRY_SIZE),
            None => None,
        }
    }
}

} // verus!
