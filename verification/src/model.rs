//! The records that flow through ingestion and queries.

use vstd::prelude::*;

verus! {

/// What identifies the source of a reading.
#[derive(Debug, Clone, PartialEq, Eq)]
pub struct Metadata {
    pub device_id: String,
}

/// One reading of one metric.
///
/// `timestamp` is the instant of ingestion in milliseconds since the Unix
/// epoch. `data` is the IEEE 754 single-precision bit pattern of the value, so
/// that a reading is carried and compared exactly.
#[derive(Debug, Clone, PartialEq, Eq)]
pub struct SensorData {
    pub metadata: Metadata,
    pub timestamp: i64,
    pub data: u32,
}

/// A known device. Only its identifier takes part in any decision.
#[derive(Debug, Clone, PartialEq, Eq)]
pub struct Device {
    pub id: String,
}

/// The mathematical content of a [`SensorData`].
pub struct Reading {
    pub device_id: Seq<char>,
    pub timestamp: i64,
    pub data: u32,
}

impl View for Metadata {
    type V = Seq<char>;

    open spec fn view(&self) -> Seq<char> {
        self.device_id@
    }
}

impl View for SensorData {
    type V = Reading;

    open spec fn view(&self) -> Reading {
        Reading { device_id: self.metadata@, timestamp: self.timestamp, data: self.data }
    }
}

impl View for Device {
    type V = Seq<char>;

    open spec fn view(&self) -> Seq<char> {
        self.id@
    }
}

/// The readings that a sequence of records stands for, in the same order.
pub open spec fn readings(records: Seq<SensorData>) -> Seq<Reading> {
    records.map_values(|r: SensorData| r@)
}

/// The identifiers of a list of devices, in the same order.
pub open spec fn device_ids(devices: Seq<Device>) -> Seq<Seq<char>> {
    devices.map_values(|device: Device| device@)
}

impl SensorData {
    /// Builds the record of a reading taken from `device_id` at `timestamp`.
    pub fn new(device_id: String, timestamp: i64, data: u32) -> (record: SensorData)
        ensures
            record@ == (Reading { device_id: device_id@, timestamp, data }),
    {
        SensorData { metadata: Metadata { device_id }, timestamp, data }
    }
}

} // verus!
