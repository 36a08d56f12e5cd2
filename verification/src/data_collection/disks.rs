//! Disk capacity and disk I/O.
//!
//! Both are read device by device, and the read of any one device may fail.
//! A list is only as good as all of its entries: the first failed read fails
//! the whole list.

use vstd::prelude::*;
use crate::data_collection::SampleError;
use crate::data_collection::Timed;

verus! {

/// The capacity of one mounted disk, in bytes.
#[derive(Clone, Debug, Default)]
pub struct DiskData {
    pub name: String,
    pub mount_point: String,
    pub free_space: u64,
    pub used_space: u64,
    pub total_space: u64,
}

/// The I/O counters of one device at one instant: the bytes read and
/// written since the system started.
#[derive(Clone, Debug)]
pub struct IOData {
    pub mount_point: String,
    pub read_bytes: u64,
    pub write_bytes: u64,
    pub instant: u64,
}

/// The I/O counters of all devices at one instant: one entry of the I/O
/// history.
#[derive(Clone, Debug)]
pub struct IOPackage {
    pub io_list: Vec<IOData>,
    pub instant: u64,
}

impl Timed for IOPackage {
    open spec fn timestamp(&self) -> u64 {
        self.instant
    }

    fn instant(&self) -> u64 {
        self.instant
    }
}

/// What was read of one device's I/O counters. A device may have no name
/// that can be shown.
pub struct IOReading {
    pub device_name: Option<String>,
    pub read_bytes: u64,
    pub write_bytes: u64,
}

/// What was read of one partition and its usage. The device and the mount
/// point may have no name that can be shown.
pub struct DiskReading {
    pub device: Option<String>,
    pub mount_point: Option<String>,
    pub free_space: u64,
    pub used_space: u64,
    pub total_space: u64,
}

/// The name shown for a device or mount point: its own where it has one.
pub open spec fn shown_name(name: Option<String>) -> Seq<char> {
    match name {
        Some(name) => name@,
        None => "Name Unavailable"@,
    }
}

/// Whether item `k` is the first failed read of `items`.
pub open spec fn is_first_failure<T>(items: Seq<Result<T, SampleError>>, k: int) -> bool {
    &&& 0 <= k < items.len()
    &&& items[k] is Err
    &&& forall|j: int| 0 <= j < k ==> (#[trigger] items[j]) is Ok
}

/// Whether `data` is what `reading`, taken at `instant`, is kept as.
pub open spec fn is_io_data_of(data: IOData, reading: IOReading, instant: u64) -> bool {
    &&& data.mount_point@ == shown_name(reading.device_name)
    &&& data.read_bytes == reading.read_bytes
    &&& data.write_bytes == reading.write_bytes
    &&& data.instant == instant
}

/// Whether `data` is what `reading` is kept as.
pub open spec fn is_disk_data_of(data: DiskData, reading: DiskReading) -> bool {
    &&& data.name@ == shown_name(reading.device)
    &&& data.mount_point@ == shown_name(reading.mount_point)
    &&& data.free_space == reading.free_space
    &&& data.used_space == reading.used_space
    &&& data.total_space == reading.total_space
}

/// Whether `result` is what the I/O counters read at `instant` are kept as:
/// the first failure among them if there is one, and else one entry per
/// device, in the order read.
pub open spec fn is_io_usage_list_of(
    result: Result<Vec<IOData>, SampleError>,
    counters: Seq<Result<IOReading, SampleError>>,
    instant: u64,
) -> bool {
    &&& result is Err <==> exists|k: int| 0 <= k < counters.len() && (#[trigger] counters[k]) is Err
    &&& result is Err ==> exists|k: int|
        is_first_failure(counters, k) && #[trigger] counters[k] == Err::<IOReading, SampleError>(
            result->Err_0,
        )
    &&& result is Ok ==> result->Ok_0@.len() == counters.len()
    &&& result is Ok ==> forall|i: int|
        0 <= i < counters.len() ==> is_io_data_of(
            #[trigger] result->Ok_0@[i],
            counters[i]->Ok_0,
            instant,
        )
}

/// Whether `result` is what the partitions read are kept as: the first
/// failure among them if there is one, and else one entry per partition, in
/// the order read.
pub open spec fn is_disk_usage_list_of(
    result: Result<Vec<DiskData>, SampleError>,
    partitions: Seq<Result<DiskReading, SampleError>>,
) -> bool {
    &&& result is Err <==> exists|k: int|
        0 <= k < partitions.len() && (#[trigger] partitions[k]) is Err
    &&& result is Err ==> exists|k: int|
        is_first_failure(partitions, k) && #[trigger] partitions[k] == Err::<
            DiskReading,
            SampleError,
        >(result->Err_0)
    &&& result is Ok ==> result->Ok_0@.len() == partitions.len()
    &&& result is Ok ==> forall|i: int|
        0 <= i < partitions.len() ==> is_disk_data_of(
            #[trigger] result->Ok_0@[i],
            partitions[i]->Ok_0,
        )
}

fn name_or_unavailable(name: Option<String>) -> (shown: String)
    ensures
        shown@ == shown_name(name),
{
    match name {
        Some(name) => name,
        None => "Name Unavailable".to_owned(),
    }
}

/// Turns the I/O counters read at `curr_time` into the list that is kept,
/// one entry per device and in the order read.
///
/// Fails with the first failure among `counters`, if there is one.
pub fn get_io_usage_list(counters: Vec<Result<IOReading, SampleError>>, curr_time: u64) -> (result:
    Result<Vec<IOData>, SampleError>)
    ensures
        is_io_usage_list_of(result, counters@, curr_time),
{
    let mut io_list: Vec<IOData> = Vec::new();
    for item in it: counters.into_iter()
        invariant
            it.seq() == counters@,
            io_list@.len() == it.index(),
            forall|j: int| 0 <= j < it.index() ==> (#[trigger] counters@[j]) is Ok,
            forall|i: int|
                0 <= i < it.index() ==> is_io_data_of(
                    #[trigger] io_list@[i],
                    counters@[i]->Ok_0,
                    curr_time,
                ),
    {
        match item {
            Ok(io) => {
                io_list.push(
                    IOData {
                        mount_point: name_or_unavailable(io.device_name),
                        read_bytes: io.read_bytes,
                        write_bytes: io.write_bytes,
                        instant: curr_time,
                    },
                );
            },
            Err(e) => {
                assert(is_first_failure(counters@, it.index() as int));
                return Err(e);
            },
        }
    }
    Ok(io_list)
}

/// Turns the partitions read into the list of disks that is kept, one entry
/// per partition and in the order read.
///
/// Fails with the first failure among `partitions`, if there is one.
pub fn get_disk_usage_list(partitions: Vec<Result<DiskReading, SampleError>>) -> (result: Result<
    Vec<DiskData>,
    SampleError,
>)
    ensures
        is_disk_usage_list_of(result, partitions@),
{
    let mut vec_disks: Vec<DiskData> = Vec::new();
    for item in it: partitions.into_iter()
        invariant
            it.seq() == partitions@,
            vec_disks@.len() == it.index(),
            forall|j: int| 0 <= j < it.index() ==> (#[trigger] partitions@[j]) is Ok,
            forall|i: int|
                0 <= i < it.index() ==> is_disk_data_of(
                    #[trigger] vec_disks@[i],
                    partitions@[i]->Ok_0,
                ),
    {
        match item {
            Ok(partition) => {
                vec_disks.push(
                    DiskData {
                        name: name_or_unavailable(partition.device),
                        mount_point: name_or_unavailable(partition.mount_point),
                        free_space: partition.free_space,
                        used_space: partition.used_space,
                        total_space: partition.total_space,
                    },
                );
            },
            Err(e) => {
                assert(is_first_failure(partitions@, it.index() as int));
                return Err(e);
            },
        }
    }
    Ok(vec_disks)
}

} // verus!
