//! Network throughput.
//!
//! The system counts the bytes received and sent since it started. What is
//! kept is the rate between two readings, in bytes per second.

use vstd::prelude::*;
use crate::data_collection::SampleError;
use crate::data_collection::Timed;
use crate::data_collection::rate::RateCounter;

verus! {

/// The number of milliseconds in a second: the scale that turns a rate per
/// millisecond into one per second.
pub const MILLISECONDS_PER_SECOND: u32 = 1000;

/// The network throughput at one instant, in bytes per second.
#[derive(Clone, Copy, Debug, PartialEq, Eq, Structural)]
pub struct NetworkData {
    pub rx: u64,
    pub tx: u64,
    pub instant: u64,
}

impl Timed for NetworkData {
    open spec fn timestamp(&self) -> u64 {
        self.instant
    }

    fn instant(&self) -> u64 {
        self.instant
    }
}

/// What was read of the network: the bytes received and sent since the
/// system started.
#[derive(Clone, Copy, Debug, PartialEq, Eq, Structural)]
pub struct NetworkReading {
    pub rx_bytes: u64,
    pub tx_bytes: u64,
}

/// The entry that a reading taken at `instant` is kept as, given what was
/// remembered of the two counters.
pub open spec fn network_sample(
    prev_rx: RateCounter,
    prev_tx: RateCounter,
    reading: NetworkReading,
    instant: u64,
) -> NetworkData {
    NetworkData {
        rx: prev_rx.rate_at(reading.rx_bytes, instant, 1000) as u64,
        tx: prev_tx.rate_at(reading.tx_bytes, instant, 1000) as u64,
        instant,
    }
}

/// Turns a reading of the network counters into the throughput since the
/// reading before, and remembers this reading in place of that one.
///
/// A failed read stays the failure it was and leaves what is remembered
/// untouched.
pub fn get_network_data(
    reading: Result<NetworkReading, SampleError>,
    prev_net_rx: &mut RateCounter,
    prev_net_tx: &mut RateCounter,
    curr_time: u64,
) -> (result: Result<NetworkData, SampleError>)
    ensures
        result == match reading {
            Ok(reading) => Ok::<NetworkData, SampleError>(
                network_sample(*old(prev_net_rx), *old(prev_net_tx), reading, curr_time),
            ),
            Err(e) => Err::<NetworkData, SampleError>(e),
        },
        *final(prev_net_rx) == match reading {
            Ok(reading) => RateCounter::observed(reading.rx_bytes, curr_time),
            Err(_) => *old(prev_net_rx),
        },
        *final(prev_net_tx) == match reading {
            Ok(reading) => RateCounter::observed(reading.tx_bytes, curr_time),
            Err(_) => *old(prev_net_tx),
        },
{
    match reading {
        Ok(reading) => {
            let rx: u64 = prev_net_rx.observe(reading.rx_bytes, curr_time, MILLISECONDS_PER_SECOND);
            let tx: u64 = prev_net_tx.observe(reading.tx_bytes, curr_time, MILLISECONDS_PER_SECOND);
            Ok(NetworkData { rx, tx, instant: curr_time })
        },
        Err(e) => Err(e),
    }
}

} // verus!
