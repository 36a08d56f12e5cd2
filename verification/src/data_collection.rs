//! The sampling engine: what is kept of the system between ticks, and how a
//! tick's readings are merged into it.
//!
//! A tick reads every category of the system once. Each read may fail on its
//! own, and a failed read never spoils the others: a history simply gets no
//! new entry, and a snapshot stays what it was.
//!
//! Instants are in milliseconds since the engine was made.

use vstd::prelude::*;
use std::collections::HashMap;
use crate::data_collection::cpu::{CPUData, CPUPackage, get_cpu_data_list};
use crate::data_collection::disks::{
    DiskData, DiskReading, IOPackage, IOReading, get_disk_usage_list, get_io_usage_list,
    is_disk_usage_list_of, is_io_usage_list_of,
};
use crate::data_collection::mem::{
    MemData, MemReading, get_mem_data_list, get_swap_data_list, mem_sample,
};
use crate::data_collection::network::{
    NetworkData, NetworkReading, get_network_data, network_sample,
};
use crate::data_collection::processes::{
    CpuTicks, ProcessData, ProcessesReading, busy_share, get_process_list, is_process_list_of,
    table_after,
};
use crate::data_collection::rate::RateCounter;
use crate::data_collection::retention::{
    is_stale, lemma_retained_is_fresh, lemma_retained_push, retain_fresh, retain_fresh_processes,
    retained, retained_processes, stale,
};
use crate::data_collection::temperature::{
    TempData, TempReading, TemperatureType, get_temperature_data, is_temp_list_of,
};

pub mod cpu;
pub mod disks;
pub mod mem;
pub mod network;
pub mod processes;
pub mod rate;
pub mod retention;
pub mod temperature;

verus! {

/// Why one reading of one tick is missing. Such a failure never leaves the
/// engine: the tick goes on without that reading.
#[derive(Clone, Copy, Debug, PartialEq, Eq, Structural)]
pub enum SampleError {
    /// The system did not give the values.
    Unavailable,
    /// The system did not answer in time.
    TimedOut,
}

/// Replaces a value by a fresh one if the read succeeded, and leaves it as
/// it is if the read failed.
pub fn set_if_valid<T, E>(result: Result<T, E>, value_to_set: &mut T)
    ensures
        *final(value_to_set) == match result {
            Ok(value) => value,
            Err(_) => *old(value_to_set),
        },
{
    if let Ok(result) = result {
        *value_to_set = result;
    }
}

/// Appends a fresh entry to a history if the read succeeded, and leaves the
/// history as it is if the read failed.
pub fn push_if_valid<T, E>(result: Result<T, E>, vector_to_push: &mut Vec<T>)
    ensures
        final(vector_to_push)@ == match result {
            Ok(value) => old(vector_to_push)@.push(value),
            Err(_) => old(vector_to_push)@,
        },
{
    if let Ok(result) = result {
        vector_to_push.push(result);
    }
}

/// An entry of a history: it knows the instant at which it was taken.
pub trait Timed {
    /// The instant at which the entry was taken, in milliseconds.
    spec fn timestamp(&self) -> u64;

    fn instant(&self) -> (t: u64)
        ensures
            t == self.timestamp(),
    ;
}

/// The staleness window of an engine made by default, in seconds.
pub const STALE_MAX_SECONDS: u64 = 60;

/// Everything the engine has collected: a history for each category that is
/// followed over time, and the latest snapshot of each of the others.
#[derive(Clone, Debug)]
pub struct Data {
    pub list_of_cpu_packages: Vec<CPUPackage>,
    pub list_of_io: Vec<IOPackage>,
    pub list_of_physical_io: Vec<IOPackage>,
    pub memory: Vec<MemData>,
    pub swap: Vec<MemData>,
    pub list_of_temperature_sensor: Vec<TempData>,
    pub network: Vec<NetworkData>,
    pub list_of_processes: Vec<ProcessData>,
    pub grouped_list_of_processes: Option<Vec<ProcessData>>,
    pub list_of_disks: Vec<DiskData>,
}

impl Data {
    /// Whether nothing has been collected.
    pub open spec fn is_empty(self) -> bool {
        &&& self.list_of_cpu_packages@.len() == 0
        &&& self.list_of_io@.len() == 0
        &&& self.list_of_physical_io@.len() == 0
        &&& self.memory@.len() == 0
        &&& self.swap@.len() == 0
        &&& self.list_of_temperature_sensor@.len() == 0
        &&& self.network@.len() == 0
        &&& self.list_of_processes@.len() == 0
        &&& self.grouped_list_of_processes is None
        &&& self.list_of_disks@.len() == 0
    }

    /// Whether no entry of any history is stale at `now`.
    pub open spec fn is_fresh(self, now: u64, stale_max_seconds: u64) -> bool {
        &&& forall|i: int|
            0 <= i < self.list_of_cpu_packages@.len() ==> !stale(
                (#[trigger] self.list_of_cpu_packages@[i]).instant,
                now,
                stale_max_seconds,
            )
        &&& forall|i: int|
            0 <= i < self.list_of_io@.len() ==> !stale(
                (#[trigger] self.list_of_io@[i]).instant,
                now,
                stale_max_seconds,
            )
        &&& forall|i: int|
            0 <= i < self.list_of_physical_io@.len() ==> !stale(
                (#[trigger] self.list_of_physical_io@[i]).instant,
                now,
                stale_max_seconds,
            )
        &&& forall|i: int|
            0 <= i < self.memory@.len() ==> !stale(
                (#[trigger] self.memory@[i]).instant,
                now,
                stale_max_seconds,
            )
        &&& forall|i: int|
            0 <= i < self.swap@.len() ==> !stale(
                (#[trigger] self.swap@[i]).instant,
                now,
                stale_max_seconds,
            )
        &&& forall|i: int|
            0 <= i < self.network@.len() ==> !stale(
                (#[trigger] self.network@[i]).instant,
                now,
                stale_max_seconds,
            )
    }
}

impl Default for Data {
    fn default() -> (data: Data)
        ensures
            data.is_empty(),
    {
        Data {
            list_of_cpu_packages: Vec::new(),
            list_of_io: Vec::new(),
            list_of_physical_io: Vec::new(),
            memory: Vec::new(),
            swap: Vec::new(),
            list_of_temperature_sensor: Vec::new(),
            network: Vec::new(),
            list_of_processes: Vec::new(),
            grouped_list_of_processes: None,
            list_of_disks: Vec::new(),
        }
    }
}

/// What one tick has read of the system, category by category. Disks and
/// I/O counters are read device by device.
pub struct Readings {
    pub network: Result<NetworkReading, SampleError>,
    pub cpu: Result<Vec<CPUData>, SampleError>,
    pub memory: Result<MemReading, SampleError>,
    pub swap: Result<MemReading, SampleError>,
    pub processes: Result<ProcessesReading, SampleError>,
    pub disks: Vec<Result<DiskReading, SampleError>>,
    pub io: Vec<Result<IOReading, SampleError>>,
    pub physical_io: Vec<Result<IOReading, SampleError>>,
    pub temperatures: Result<Vec<TempReading>, SampleError>,
}

/// Whether no read of `items` failed.
pub open spec fn none_failed<T>(items: Seq<Result<T, SampleError>>) -> bool {
    forall|i: int| 0 <= i < items.len() ==> (#[trigger] items[i]) is Ok
}

impl Readings {
    /// Whether every read of the tick succeeded.
    pub open spec fn all_ok(self) -> bool {
        &&& self.network is Ok
        &&& self.cpu is Ok
        &&& self.memory is Ok
        &&& self.swap is Ok
        &&& self.processes is Ok
        &&& none_failed(self.disks@)
        &&& none_failed(self.io@)
        &&& none_failed(self.physical_io@)
        &&& self.temperatures is Ok
    }
}

/// What one tick has to offer to the collected data: for each category the
/// finished entry or snapshot, or the failure of its read.
pub struct Samples {
    pub network: Result<NetworkData, SampleError>,
    pub cpu: Result<CPUPackage, SampleError>,
    pub memory: Result<MemData, SampleError>,
    pub swap: Result<MemData, SampleError>,
    pub processes: Result<Vec<ProcessData>, SampleError>,
    pub disks: Result<Vec<DiskData>, SampleError>,
    pub io: Result<IOPackage, SampleError>,
    pub physical_io: Result<IOPackage, SampleError>,
    pub temperatures: Result<Vec<TempData>, SampleError>,
}

impl Samples {
    /// Whether every category has something to offer.
    pub open spec fn all_valid(self) -> bool {
        &&& self.network is Ok
        &&& self.cpu is Ok
        &&& self.memory is Ok
        &&& self.swap is Ok
        &&& self.processes is Ok
        &&& self.disks is Ok
        &&& self.io is Ok
        &&& self.physical_io is Ok
        &&& self.temperatures is Ok
    }

    /// Tells whether every category has something to offer.
    pub fn is_all_valid(&self) -> (valid: bool)
        ensures
            valid == self.all_valid(),
    {
        self.network.is_ok() && self.cpu.is_ok() && self.memory.is_ok() && self.swap.is_ok()
            && self.processes.is_ok() && self.disks.is_ok() && self.io.is_ok()
            && self.physical_io.is_ok() && self.temperatures.is_ok()
    }
}

/// A history after one tick's entry has been offered to it: one entry
/// longer where the read succeeded.
pub open spec fn pushed<T>(history: Seq<T>, sample: Result<T, SampleError>) -> Seq<T> {
    match sample {
        Ok(entry) => history.push(entry),
        Err(_) => history,
    }
}

/// A snapshot after one tick's reading has been offered to it: the reading
/// where the read succeeded.
pub open spec fn replaced<T>(snapshot: T, sample: Result<T, SampleError>) -> T {
    match sample {
        Ok(reading) => reading,
        Err(_) => snapshot,
    }
}

/// A history after one tick: started afresh if this is the engine's first
/// tick without a failure, then offered the tick's entry, then swept if a
/// sweep is due.
pub open spec fn merged<T: Timed>(
    history: Seq<T>,
    sample: Result<T, SampleError>,
    fresh_start: bool,
    sweep: bool,
    now: u64,
    stale_max_seconds: u64,
) -> Seq<T> {
    let started = if fresh_start {
        Seq::empty()
    } else {
        history
    };
    if sweep {
        retained(pushed(started, sample), now, stale_max_seconds)
    } else {
        pushed(started, sample)
    }
}

/// The sampling engine: the collected data, and what is kept between ticks
/// to compute the next tick's rates.
pub struct DataState {
    pub data: Data,
    /// Whether no tick without a failure has been seen yet.
    pub first_run: bool,
    /// The staleness window, in seconds.
    pub stale_max_seconds: u64,
    /// For each process id, the processor time last reported and when.
    pub prev_pid_stats: HashMap<u32, (u64, u64)>,
    pub prev_cpu: CpuTicks,
    /// The share of the time between the last two ticks during which the
    /// processor was busy, in basis points.
    pub total_cpu_usage: u64,
    pub prev_net_rx: RateCounter,
    pub prev_net_tx: RateCounter,
    pub temperature_type: TemperatureType,
    /// When stale entries were last swept.
    pub last_clean: u64,
    pub use_current_cpu_total: bool,
}

/// Whether `sample` is the entry of the I/O history that the counters read
/// at `instant` give.
pub open spec fn is_io_sample_of(
    sample: Result<IOPackage, SampleError>,
    counters: Seq<Result<IOReading, SampleError>>,
    instant: u64,
) -> bool {
    match sample {
        Ok(package) => package.instant == instant && is_io_usage_list_of(
            Ok(package.io_list),
            counters,
            instant,
        ),
        Err(e) => is_io_usage_list_of(Err(e), counters, instant),
    }
}

/// Whether `after` is `before` after the counters among `readings` have
/// been observed at `now`: the network counters, the processor's time
/// counters and each process's processor time, each only where its read
/// succeeded. The collected data stays as it is.
pub open spec fn counters_observed(
    before: DataState,
    readings: Readings,
    now: u64,
    after: DataState,
) -> bool {
    &&& after.data == before.data
    &&& after.first_run == before.first_run
    &&& after.last_clean == before.last_clean
    &&& after.has_settings_of(before)
    &&& after.prev_net_rx == match readings.network {
        Ok(reading) => RateCounter::observed(reading.rx_bytes, now),
        Err(_) => before.prev_net_rx,
    }
    &&& after.prev_net_tx == match readings.network {
        Ok(reading) => RateCounter::observed(reading.tx_bytes, now),
        Err(_) => before.prev_net_tx,
    }
    &&& after.prev_cpu == match readings.processes {
        Ok(reading) => CpuTicks {
            seeded: true,
            idle: reading.idle_ticks,
            non_idle: reading.non_idle_ticks,
        },
        Err(_) => before.prev_cpu,
    }
    &&& after.total_cpu_usage == match readings.processes {
        Ok(reading) => busy_share(
            before.prev_cpu,
            reading.idle_ticks as int,
            reading.non_idle_ticks as int,
        ) as u64,
        Err(_) => before.total_cpu_usage,
    }
    &&& after.prev_pid_stats@ == match readings.processes {
        Ok(reading) => table_after(before.prev_pid_stats@, reading.processes@, now),
        Err(_) => before.prev_pid_stats@,
    }
}

/// Whether `samples` are what `readings`, taken at `now`, have to offer to
/// the data collected by `before`.
pub open spec fn samples_taken(
    before: DataState,
    readings: Readings,
    now: u64,
    samples: Samples,
) -> bool {
    &&& samples.network == match readings.network {
        Ok(reading) => Ok::<NetworkData, SampleError>(
            network_sample(before.prev_net_rx, before.prev_net_tx, reading, now),
        ),
        Err(e) => Err::<NetworkData, SampleError>(e),
    }
    &&& samples.cpu == match readings.cpu {
        Ok(cpu_vec) => Ok::<CPUPackage, SampleError>(CPUPackage { cpu_vec, instant: now }),
        Err(e) => Err::<CPUPackage, SampleError>(e),
    }
    &&& samples.memory == match readings.memory {
        Ok(reading) => Ok::<MemData, SampleError>(mem_sample(reading, now)),
        Err(e) => Err::<MemData, SampleError>(e),
    }
    &&& samples.swap == match readings.swap {
        Ok(reading) => Ok::<MemData, SampleError>(mem_sample(reading, now)),
        Err(e) => Err::<MemData, SampleError>(e),
    }
    &&& match readings.processes {
        Ok(reading) => samples.processes is Ok && is_process_list_of(
            samples.processes->Ok_0@,
            reading,
            before.prev_pid_stats@,
            now,
            before.use_current_cpu_total,
        ),
        Err(e) => samples.processes == Err::<Vec<ProcessData>, SampleError>(e),
    }
    &&& is_disk_usage_list_of(samples.disks, readings.disks@)
    &&& is_io_sample_of(samples.io, readings.io@, now)
    &&& is_io_sample_of(samples.physical_io, readings.physical_io@, now)
    &&& match readings.temperatures {
        Ok(sensors) => samples.temperatures is Ok && is_temp_list_of(
            samples.temperatures->Ok_0@,
            sensors@,
            before.temperature_type,
        ),
        Err(e) => samples.temperatures == Err::<Vec<TempData>, SampleError>(e),
    }
}

/// Whether `after` is `before` after the tick that read `readings` at
/// `now`: the counters observed, the samples taken and merged in.
pub open spec fn update_result(
    before: DataState,
    readings: Readings,
    now: u64,
    after: DataState,
) -> bool {
    exists|samples: Samples, observed: DataState|
        {
            &&& samples_taken(before, readings, now, samples)
            &&& counters_observed(before, readings, now, observed)
            &&& #[trigger] merge_result(observed, samples, now, after)
        }
}

/// Whether `after` holds, in every history, the one entry that `readings`
/// give at `now` and nothing else.
pub open spec fn holds_one_tick(
    after: Data,
    before: DataState,
    readings: Readings,
    now: u64,
) -> bool {
    &&& after.network@ == seq![
        network_sample(before.prev_net_rx, before.prev_net_tx, readings.network->Ok_0, now),
    ]
    &&& after.list_of_cpu_packages@ == seq![
        CPUPackage { cpu_vec: readings.cpu->Ok_0, instant: now },
    ]
    &&& after.memory@ == seq![mem_sample(readings.memory->Ok_0, now)]
    &&& after.swap@ == seq![mem_sample(readings.swap->Ok_0, now)]
    &&& after.list_of_io@.len() == 1
    &&& is_io_sample_of(Ok(after.list_of_io@[0]), readings.io@, now)
    &&& after.list_of_physical_io@.len() == 1
    &&& is_io_sample_of(Ok(after.list_of_physical_io@[0]), readings.physical_io@, now)
}

/// The samples of a tick are all valid exactly when all of its reads
/// succeeded.
pub proof fn lemma_samples_valid_when_reads_ok(
    before: DataState,
    readings: Readings,
    now: u64,
    samples: Samples,
)
    requires
        samples_taken(before, readings, now, samples),
    ensures
        samples.all_valid() <==> readings.all_ok(),
{
    if readings.all_ok() {
        assert(samples.disks is Ok);
        assert(samples.io is Ok);
        assert(samples.physical_io is Ok);
    }
    if samples.all_valid() {
        assert(none_failed(readings.disks@));
        assert(none_failed(readings.io@));
        assert(none_failed(readings.physical_io@));
    }
}

/// The first tick without a failure leaves, in every history, the one entry
/// of that tick and nothing from before, whatever was collected until then.
pub proof fn lemma_first_full_tick_starts_afresh(
    before: DataState,
    readings: Readings,
    now: u64,
    after: DataState,
)
    requires
        update_result(before, readings, now, after),
        before.first_run,
        readings.all_ok(),
    ensures
        holds_one_tick(after.data, before, readings, now),
        !after.first_run,
{
    let (samples, observed) = choose|samples: Samples, observed: DataState|
        {
            &&& samples_taken(before, readings, now, samples)
            &&& counters_observed(before, readings, now, observed)
            &&& #[trigger] merge_result(observed, samples, now, after)
        };
    lemma_samples_valid_when_reads_ok(before, readings, now, samples);
    let window = before.stale_max_seconds;
    lemma_retained_push(Seq::<NetworkData>::empty(), samples.network->Ok_0, now, window);
    lemma_retained_push(Seq::<CPUPackage>::empty(), samples.cpu->Ok_0, now, window);
    lemma_retained_push(Seq::<MemData>::empty(), samples.memory->Ok_0, now, window);
    lemma_retained_push(Seq::<MemData>::empty(), samples.swap->Ok_0, now, window);
    lemma_retained_push(Seq::<IOPackage>::empty(), samples.io->Ok_0, now, window);
    lemma_retained_push(Seq::<IOPackage>::empty(), samples.physical_io->Ok_0, now, window);
    lemma_retained_is_fresh(Seq::<NetworkData>::empty(), now, window);
    lemma_retained_is_fresh(Seq::<CPUPackage>::empty(), now, window);
    lemma_retained_is_fresh(Seq::<MemData>::empty(), now, window);
    lemma_retained_is_fresh(Seq::<IOPackage>::empty(), now, window);
    assert(after.data.network@ =~= seq![samples.network->Ok_0]);
    assert(after.data.list_of_cpu_packages@ =~= seq![samples.cpu->Ok_0]);
    assert(after.data.memory@ =~= seq![samples.memory->Ok_0]);
    assert(after.data.swap@ =~= seq![samples.swap->Ok_0]);
    assert(after.data.list_of_io@ =~= seq![samples.io->Ok_0]);
    assert(after.data.list_of_physical_io@ =~= seq![samples.physical_io->Ok_0]);
}

/// A tick in which the read of the disks failed leaves the list of disks
/// exactly as it was; so it is with the processes and the temperature
/// sensors.
pub proof fn lemma_failed_read_keeps_snapshot(
    before: DataState,
    readings: Readings,
    now: u64,
    after: DataState,
)
    requires
        update_result(before, readings, now, after),
    ensures
        !none_failed(readings.disks@) ==> after.data.list_of_disks@ == before.data.list_of_disks@,
        readings.processes is Err ==> after.data.list_of_processes@
            == before.data.list_of_processes@,
        readings.temperatures is Err ==> after.data.list_of_temperature_sensor@
            == before.data.list_of_temperature_sensor@,
{
}

/// Whether `after` is `before` with the samples of one tick merged in at
/// `now`.
///
/// The first tick without a failure discards what was collected before it.
/// A sweep is due when the last one is longer ago than the staleness
/// window; it reaches every history and what is remembered of the
/// processes.
pub open spec fn merge_result(
    before: DataState,
    samples: Samples,
    now: u64,
    after: DataState,
) -> bool {
    let fresh_start = before.first_run && samples.all_valid();
    let sweep = stale(before.last_clean, now, before.stale_max_seconds);
    let window = before.stale_max_seconds;
    &&& after.data.network@ == merged(
        before.data.network@,
        samples.network,
        fresh_start,
        sweep,
        now,
        window,
    )
    &&& after.data.list_of_cpu_packages@ == merged(
        before.data.list_of_cpu_packages@,
        samples.cpu,
        fresh_start,
        sweep,
        now,
        window,
    )
    &&& after.data.memory@ == merged(
        before.data.memory@,
        samples.memory,
        fresh_start,
        sweep,
        now,
        window,
    )
    &&& after.data.swap@ == merged(
        before.data.swap@,
        samples.swap,
        fresh_start,
        sweep,
        now,
        window,
    )
    &&& after.data.list_of_io@ == merged(
        before.data.list_of_io@,
        samples.io,
        fresh_start,
        sweep,
        now,
        window,
    )
    &&& after.data.list_of_physical_io@ == merged(
        before.data.list_of_physical_io@,
        samples.physical_io,
        fresh_start,
        sweep,
        now,
        window,
    )
    &&& after.data.list_of_processes@ == replaced(
        before.data.list_of_processes,
        samples.processes,
    )@
    &&& after.data.list_of_disks@ == replaced(before.data.list_of_disks, samples.disks)@
    &&& after.data.list_of_temperature_sensor@ == replaced(
        before.data.list_of_temperature_sensor,
        samples.temperatures,
    )@
    &&& after.data.grouped_list_of_processes == if fresh_start {
        None
    } else {
        before.data.grouped_list_of_processes
    }
    &&& after.first_run == (before.first_run && !samples.all_valid())
    &&& after.last_clean == if sweep {
        now
    } else {
        before.last_clean
    }
    &&& after.prev_pid_stats@ == if sweep {
        retained_processes(before.prev_pid_stats@, now, window)
    } else {
        before.prev_pid_stats@
    }
    &&& after.has_settings_of(before)
    &&& after.prev_cpu == before.prev_cpu
    &&& after.total_cpu_usage == before.total_cpu_usage
    &&& after.prev_net_rx == before.prev_net_rx
    &&& after.prev_net_tx == before.prev_net_tx
}

impl Default for DataState {
    fn default() -> (state: DataState)
        ensures
            state.data.is_empty(),
            state.first_run,
            state.stale_max_seconds == STALE_MAX_SECONDS,
            state.prev_pid_stats@ == Map::<u32, (u64, u64)>::empty(),
            state.prev_cpu == (CpuTicks { seeded: false, idle: 0, non_idle: 0 }),
            state.prev_net_rx == (RateCounter { seeded: false, value: 0, instant: 0 }),
            state.prev_net_tx == (RateCounter { seeded: false, value: 0, instant: 0 }),
            state.total_cpu_usage == 0,
            state.temperature_type == TemperatureType::Celsius,
            state.last_clean == 0,
            !state.use_current_cpu_total,
    {
        DataState::new(STALE_MAX_SECONDS)
    }
}

impl DataState {
    /// Whether the engine is set up as `other` is: the same staleness
    /// window, unit of temperature and way of computing processor usage.
    pub open spec fn has_settings_of(self, other: DataState) -> bool {
        &&& self.stale_max_seconds == other.stale_max_seconds
        &&& self.temperature_type == other.temperature_type
        &&& self.use_current_cpu_total == other.use_current_cpu_total
    }

    /// An engine that has seen nothing, with a staleness window of
    /// `stale_max_seconds`. Every counter it remembers stands at zero and
    /// counts as not yet observed.
    pub fn new(stale_max_seconds: u64) -> (state: DataState)
        ensures
            state.data.is_empty(),
            state.first_run,
            state.stale_max_seconds == stale_max_seconds,
            state.prev_pid_stats@ == Map::<u32, (u64, u64)>::empty(),
            state.prev_cpu == (CpuTicks { seeded: false, idle: 0, non_idle: 0 }),
            state.prev_net_rx == (RateCounter { seeded: false, value: 0, instant: 0 }),
            state.prev_net_tx == (RateCounter { seeded: false, value: 0, instant: 0 }),
            state.total_cpu_usage == 0,
            state.temperature_type == TemperatureType::Celsius,
            state.last_clean == 0,
            !state.use_current_cpu_total,
    {
        DataState {
            data: Data::default(),
            first_run: true,
            stale_max_seconds,
            prev_pid_stats: HashMap::new(),
            prev_cpu: CpuTicks { seeded: false, idle: 0, non_idle: 0 },
            total_cpu_usage: 0,
            prev_net_rx: RateCounter::new(),
            prev_net_tx: RateCounter::new(),
            temperature_type: TemperatureType::Celsius,
            last_clean: 0,
            use_current_cpu_total: false,
        }
    }

    /// Sets the unit in which temperatures are shown from the next tick on.
    pub fn set_temperature_type(&mut self, temperature_type: TemperatureType)
        ensures
            *final(self) == (DataState { temperature_type, ..*old(self) }),
    {
        self.temperature_type = temperature_type;
    }

    /// Sets whether the processor usage of a process is divided by the
    /// number of cores from the next tick on.
    pub fn set_use_current_cpu_total(&mut self, use_current_cpu_total: bool)
        ensures
            *final(self) == (DataState { use_current_cpu_total, ..*old(self) }),
    {
        self.use_current_cpu_total = use_current_cpu_total;
    }

    /// Warms the engine up with a first reading of the system: the counters
    /// among `readings` are observed, so that the first tick has something
    /// to compare its own with, and nothing is added to the collected data.
    pub fn init(&mut self, readings: Readings, now: u64)
        ensures
            counters_observed(*old(self), readings, now, *final(self)),
    {
        let _ = self.sample(readings, now);
    }

    /// Takes the samples of one tick from its readings, and observes the
    /// counters among them. The collected data stays as it is.
    pub fn sample(&mut self, readings: Readings, now: u64) -> (samples: Samples)
        ensures
            samples_taken(*old(self), readings, now, samples),
            counters_observed(*old(self), readings, now, *final(self)),
    {
        let network = get_network_data(
            readings.network,
            &mut self.prev_net_rx,
            &mut self.prev_net_tx,
            now,
        );
        let cpu = get_cpu_data_list(readings.cpu, now);
        let memory = get_mem_data_list(readings.memory, now);
        let swap = get_swap_data_list(readings.swap, now);
        let processes = match get_process_list(
            readings.processes,
            &mut self.prev_cpu,
            &mut self.prev_pid_stats,
            self.use_current_cpu_total,
            now,
        ) {
            Ok((list, usage)) => {
                self.total_cpu_usage = usage;
                Ok(list)
            },
            Err(e) => Err(e),
        };
        let disks = get_disk_usage_list(readings.disks);
        let io = match get_io_usage_list(readings.io, now) {
            Ok(io_list) => Ok(IOPackage { io_list, instant: now }),
            Err(e) => Err(e),
        };
        let physical_io = match get_io_usage_list(readings.physical_io, now) {
            Ok(io_list) => Ok(IOPackage { io_list, instant: now }),
            Err(e) => Err(e),
        };
        let temperatures = get_temperature_data(readings.temperatures, &self.temperature_type);
        Samples { network, cpu, memory, swap, processes, disks, io, physical_io, temperatures }
    }

    /// Runs one tick: observes the counters among `readings`, takes the
    /// tick's samples and merges them into the collected data.
    ///
    /// A history gets a new entry where its read succeeded and none where
    /// it failed; a snapshot is replaced where its read succeeded and kept
    /// where it failed. The first tick in which no read fails discards
    /// everything collected before it. When the last sweep is longer ago
    /// than the staleness window, stale entries are swept.
    pub fn update_data(&mut self, readings: Readings, current_instant: u64)
        ensures
            update_result(*old(self), readings, current_instant, *final(self)),
            // The first tick without a failure starts every history afresh.
            old(self).first_run && readings.all_ok() ==> holds_one_tick(
                final(self).data,
                *old(self),
                readings,
                current_instant,
            ),
            final(self).first_run == (old(self).first_run && !readings.all_ok()),
            // A failed read keeps the snapshot.
            !none_failed(readings.disks@) ==> final(self).data.list_of_disks@ == old(
                self
            ).data.list_of_disks@,
            readings.processes is Err ==> final(self).data.list_of_processes@ == old(
                self
            ).data.list_of_processes@,
            readings.temperatures is Err ==> final(self).data.list_of_temperature_sensor@ == old(
                self
            ).data.list_of_temperature_sensor@,
            // After a sweep nothing stale is left.
            stale(old(self).last_clean, current_instant, old(self).stale_max_seconds) ==> final(
                self
            ).data.is_fresh(current_instant, old(self).stale_max_seconds),
    {
        let samples = self.sample(readings, current_instant);
        let ghost observed = *self;
        self.merge(samples, current_instant);
        proof {
            assert(merge_result(observed, samples, current_instant, *self));
            lemma_samples_valid_when_reads_ok(*old(self), readings, current_instant, samples);
            if old(self).first_run && readings.all_ok() {
                lemma_first_full_tick_starts_afresh(
                    *old(self),
                    readings,
                    current_instant,
                    *self,
                );
            }
            lemma_failed_read_keeps_snapshot(*old(self), readings, current_instant, *self);
        }
    }

    /// Merges the samples of one tick into the collected data, and sweeps
    /// stale entries if a sweep is due.
    pub fn merge(&mut self, samples: Samples, now: u64)
        ensures
            merge_result(*old(self), samples, now, *final(self)),
            stale(old(self).last_clean, now, old(self).stale_max_seconds) ==> final(
                self
            ).data.is_fresh(now, old(self).stale_max_seconds),
    {
        let fresh_start: bool = self.first_run && samples.is_all_valid();
        if fresh_start {
            self.data = Data::default();
            self.first_run = false;
            proof {
                assert(self.data.network@ =~= Seq::empty());
                assert(self.data.list_of_cpu_packages@ =~= Seq::empty());
                assert(self.data.memory@ =~= Seq::empty());
                assert(self.data.swap@ =~= Seq::empty());
                assert(self.data.list_of_io@ =~= Seq::empty());
                assert(self.data.list_of_physical_io@ =~= Seq::empty());
            }
        }
        push_if_valid(samples.network, &mut self.data.network);
        push_if_valid(samples.cpu, &mut self.data.list_of_cpu_packages);
        push_if_valid(samples.memory, &mut self.data.memory);
        push_if_valid(samples.swap, &mut self.data.swap);
        push_if_valid(samples.io, &mut self.data.list_of_io);
        push_if_valid(samples.physical_io, &mut self.data.list_of_physical_io);
        set_if_valid(samples.processes, &mut self.data.list_of_processes);
        set_if_valid(samples.disks, &mut self.data.list_of_disks);
        set_if_valid(samples.temperatures, &mut self.data.list_of_temperature_sensor);

        if is_stale(self.last_clean, now, self.stale_max_seconds) {
            retain_fresh_processes(&mut self.prev_pid_stats, now, self.stale_max_seconds);
            retain_fresh(&mut self.data.list_of_cpu_packages, now, self.stale_max_seconds);
            retain_fresh(&mut self.data.memory, now, self.stale_max_seconds);
            retain_fresh(&mut self.data.swap, now, self.stale_max_seconds);
            retain_fresh(&mut self.data.network, now, self.stale_max_seconds);
            retain_fresh(&mut self.data.list_of_io, now, self.stale_max_seconds);
            retain_fresh(&mut self.data.list_of_physical_io, now, self.stale_max_seconds);
            self.last_clean = now;
        }
    }
}

} // verus!
