//! One telemetry reading as the store holds it.

use vstd::prelude::*;

verus! {

/// One reading of a tracker.
///
/// `temperature` and `voltage` hold the decimal text of the measured value, the
/// form in which the reading travels on the wire.
#[derive(Debug, Clone, PartialEq, Eq)]
pub struct SolarData {
    pub id: u64,
    pub device_id: u8,
    pub tracker_id: u8,
    pub timestamp: u64,
    pub energy_generation: usize,
    pub power_generation: usize,
    pub temperature: String,
    pub voltage: String,
}

/// The mathematical value of a [`SolarData`].
pub struct SampleView {
    pub id: u64,
    pub device_id: u8,
    pub tracker_id: u8,
    pub timestamp: u64,
    pub energy_generation: usize,
    pub power_generation: usize,
    pub temperature: Seq<char>,
    pub voltage: Seq<char>,
}

impl View for SolarData {
    type V = SampleView;

    open spec fn view(&self) -> SampleView {
        SampleView {
            id: self.id,
            device_id: self.device_id,
            tracker_id: self.tracker_id,
            timestamp: self.timestamp,
            energy_generation: self.energy_generation,
            power_generation: self.power_generation,
            temperature: self.temperature@,
            voltage: self.voltage@,
        }
    }
}

impl DeepView for SolarData {
    type V = SampleView;

    open spec fn deep_view(&self) -> SampleView {
        self@
    }
}

impl SolarData {
    /// A second value that holds the same reading.
    pub fn duplicate(&self) -> (copy: SolarData)
        ensures
            copy@ == self@,
    {
        SolarData {
            id: self.id,
            device_id: self.device_id,
            tracker_id: self.tracker_id,
            timestamp: self.timestamp,
            energy_generation: self.energy_generation,
            power_generation: self.power_generation,
            temperature: self.temperature.clone(),
            voltage: self.voltage.clone(),
        }
    }
}

impl Default for SolarData {
    /// The reading of an idle tracker: every number zero.
    fn default() -> (sample: SolarData)
        ensures
            sample@ == (SampleView {
                id: 0,
                device_id: 0,
                tracker_id: 0,
                timestamp: 0,
                energy_generation: 0,
                power_generation: 0,
                temperature: "0"@,
                voltage: "0"@,
            }),
    {
        SolarData {
            id: 0,
            device_id: 0,
            tracker_id: 0,
            timestamp: 0,
            energy_generation: 0,
            power_generation: 0,
            temperature: String::from_str("0"),
            voltage: String::from_str("0"),
        }
    }
}

} // verus!
