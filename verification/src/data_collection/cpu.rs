//! Processor usage, core by core.

use vstd::prelude::*;
use crate::data_collection::SampleError;
use crate::data_collection::Timed;

verus! {

/// The usage of one core, in basis points of the core's capacity.
#[derive(Clone, Debug)]
pub struct CPUData {
    pub cpu_name: String,
    pub cpu_usage: u64,
}

/// The usage of all cores at one instant: one entry of the processor
/// history.
#[derive(Clone, Debug)]
pub struct CPUPackage {
    pub cpu_vec: Vec<CPUData>,
    pub instant: u64,
}

impl Timed for CPUPackage {
    open spec fn timestamp(&self) -> u64 {
        self.instant
    }

    fn instant(&self) -> u64 {
        self.instant
    }
}

/// Stamps the cores' usage with the instant at which it was read. A failed
/// read stays the failure it was.
pub fn get_cpu_data_list(processors: Result<Vec<CPUData>, SampleError>, curr_time: u64) -> (result:
    Result<CPUPackage, SampleError>)
    ensures
        result == match processors {
            Ok(cpu_vec) => Ok::<CPUPackage, SampleError>(
                CPUPackage { cpu_vec, instant: curr_time },
            ),
            Err(e) => Err::<CPUPackage, SampleError>(e),
        },
{
    match processors {
        Ok(cpu_vec) => Ok(CPUPackage { cpu_vec, instant: curr_time }),
        Err(e) => Err(e),
    }
}

} // verus!
