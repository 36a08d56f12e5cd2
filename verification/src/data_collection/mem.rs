//! Memory and swap usage.

use vstd::prelude::*;
use crate::data_collection::SampleError;
use crate::data_collection::Timed;

verus! {

/// How much of the memory, or of the swap space, was in use at one instant.
#[derive(Clone, Copy, Debug, PartialEq, Eq, Structural)]
pub struct MemData {
    pub mem_total_in_bytes: u64,
    pub mem_used_in_bytes: u64,
    pub instant: u64,
}

impl Timed for MemData {
    open spec fn timestamp(&self) -> u64 {
        self.instant
    }

    fn instant(&self) -> u64 {
        self.instant
    }
}

/// What was read of the memory or of the swap space.
#[derive(Clone, Copy, Debug, PartialEq, Eq, Structural)]
pub struct MemReading {
    pub used_bytes: u64,
    pub total_bytes: u64,
}

/// The entry that a reading taken at `instant` is kept as.
pub open spec fn mem_sample(reading: MemReading, instant: u64) -> MemData {
    MemData {
        mem_total_in_bytes: reading.total_bytes,
        mem_used_in_bytes: reading.used_bytes,
        instant,
    }
}

/// Stamps a reading of the memory with the instant at which it was taken. A
/// failed read stays the failure it was.
pub fn get_mem_data_list(reading: Result<MemReading, SampleError>, curr_time: u64) -> (result:
    Result<MemData, SampleError>)
    ensures
        result == match reading {
            Ok(reading) => Ok::<MemData, SampleError>(mem_sample(reading, curr_time)),
            Err(e) => Err::<MemData, SampleError>(e),
        },
{
    match reading {
        Ok(reading) => Ok(
            MemData {
                mem_total_in_bytes: reading.total_bytes,
                mem_used_in_bytes: reading.used_bytes,
                instant: curr_time,
            },
        ),
        Err(e) => Err(e),
    }
}

/// Stamps a reading of the swap space with the instant at which it was
/// taken. A failed read stays the failure it was.
pub fn get_swap_data_list(reading: Result<MemReading, SampleError>, curr_time: u64) -> (result:
    Result<MemData, SampleError>)
    ensures
        result == match reading {
            Ok(reading) => Ok::<MemData, SampleError>(mem_sample(reading, curr_time)),
            Err(e) => Err::<MemData, SampleError>(e),
        },
{
    get_mem_data_list(reading, curr_time)
}

} // verus!
