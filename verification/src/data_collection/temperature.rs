//! Temperature sensors.
//!
//! Sensors are read in degrees Celsius and shown in the unit the user chose.
//! Temperatures are in hundredths of a degree.

use vstd::prelude::*;
use crate::data_collection::SampleError;

verus! {

/// The unit in which temperatures are shown.
#[derive(Clone, Copy, Debug, PartialEq, Eq, Structural)]
pub enum TemperatureType {
    Celsius,
    Kelvin,
    Fahrenheit,
}

/// The temperature of one sensor, in hundredths of a degree of `unit`.
#[derive(Clone, Debug)]
pub struct TempData {
    pub component_name: String,
    pub temperature: i64,
    pub unit: TemperatureType,
}

/// What was read of one sensor, in hundredths of a degree Celsius.
pub struct TempReading {
    pub component_name: String,
    pub celsius: i32,
}

/// A quotient rounded towards zero.
pub open spec fn div_towards_zero(x: int, d: int) -> int
    recommends
        d > 0,
{
    if x >= 0 {
        x / d
    } else {
        -((-x) / d)
    }
}

/// A temperature of `celsius` hundredths of a degree Celsius, in hundredths
/// of a degree of `unit`. A fraction of a hundredth is dropped.
pub open spec fn converted_temperature(celsius: int, unit: TemperatureType) -> int {
    match unit {
        TemperatureType::Celsius => celsius,
        TemperatureType::Kelvin => celsius + 27_315,
        TemperatureType::Fahrenheit => div_towards_zero(celsius * 9, 5) + 3_200,
    }
}

/// Converts a temperature from hundredths of a degree Celsius to hundredths
/// of a degree of `unit`.
pub fn convert_temperature(celsius: i32, unit: TemperatureType) -> (converted: i64)
    ensures
        converted == converted_temperature(celsius as int, unit),
{
    let celsius: i64 = celsius as i64;
    match unit {
        TemperatureType::Celsius => celsius,
        TemperatureType::Kelvin => celsius + 27_315,
        TemperatureType::Fahrenheit => (celsius * 9) / 5 + 3_200,
    }
}

/// Whether `data` is what `reading` is kept as when temperatures are shown
/// in `unit`.
pub open spec fn is_temp_data_of(data: TempData, reading: TempReading, unit: TemperatureType) -> bool {
    &&& data.component_name@ == reading.component_name@
    &&& data.temperature == converted_temperature(reading.celsius as int, unit)
    &&& data.unit == unit
}

/// Whether `list` is what `readings` are kept as: sensor by sensor, in the
/// order read.
pub open spec fn is_temp_list_of(
    list: Seq<TempData>,
    readings: Seq<TempReading>,
    unit: TemperatureType,
) -> bool {
    &&& list.len() == readings.len()
    &&& forall|i: int|
        0 <= i < list.len() ==> is_temp_data_of(#[trigger] list[i], readings[i], unit)
}

/// Converts the sensors read to the unit in which temperatures are shown. A
/// failed read stays the failure it was.
pub fn get_temperature_data(
    sensors: Result<Vec<TempReading>, SampleError>,
    temp_type: &TemperatureType,
) -> (result: Result<Vec<TempData>, SampleError>)
    ensures
        match sensors {
            Ok(readings) => result is Ok && is_temp_list_of(result->Ok_0@, readings@, *temp_type),
            Err(e) => result == Err::<Vec<TempData>, SampleError>(e),
        },
{
    match sensors {
        Ok(readings) => {
            let mut temperature_vec: Vec<TempData> = Vec::new();
            for sensor in it: readings.into_iter()
                invariant
                    it.seq() == readings@,
                    is_temp_list_of(
                        temperature_vec@,
                        readings@.take(it.index() as int),
                        *temp_type,
                    ),
            {
                temperature_vec.push(
                    TempData {
                        component_name: sensor.component_name,
                        temperature: convert_temperature(sensor.celsius, *temp_type),
                        unit: *temp_type,
                    },
                );
            }
            proof {
                assert(readings@.take(readings@.len() as int) =~= readings@);
            }
            Ok(temperature_vec)
        },
        Err(e) => Err(e),
    }
}

} // verus!
