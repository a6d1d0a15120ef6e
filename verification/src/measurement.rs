//! Environment readings and the tolerance that absorbs sensor jitter.

use vstd::prelude::*;

verus! {

/// Two readings whose fields differ by less than this many millionths of a
/// unit count as the same; the tolerance corresponds to 0.001 of a degree or
/// of a percentage point.
pub const ROUGH_TOLERANCE: i64 = 1000;

/// One temperature and humidity reading.
///
/// The temperature is in millionths of a degree Celsius and the humidity in
/// millionths of a percentage point.
#[derive(Debug, Clone, Copy, PartialEq, Eq, Structural)]
pub struct Measurement {
    pub temperature: i64,
    pub humidity: i64,
}

impl Measurement {
    pub fn new(temperature: i64, humidity: i64) -> (m: Measurement)
        ensures
            m == (Measurement { temperature, humidity }),
    {
        Measurement { temperature, humidity }
    }

    /// Both fields lie within the tolerance of each other.
    pub open spec fn spec_roughly_equal(self, other: Measurement) -> bool {
        &&& self.spec_temperature_roughly_equal(other)
        &&& -ROUGH_TOLERANCE < self.humidity - other.humidity < ROUGH_TOLERANCE
    }

    /// The temperatures lie within the tolerance of each other.
    pub open spec fn spec_temperature_roughly_equal(self, other: Measurement) -> bool {
        -ROUGH_TOLERANCE < self.temperature - other.temperature < ROUGH_TOLERANCE
    }

    pub fn roughly_equal(&self, other: &Measurement) -> (r: bool)
        ensures
            r == self.spec_roughly_equal(*other),
    {
        let dh: i128 = self.humidity as i128 - other.humidity as i128;
        self.temperature_roughly_equal(other) && -(ROUGH_TOLERANCE as i128) < dh
            && dh < ROUGH_TOLERANCE as i128
    }

    pub fn temperature_roughly_equal(&self, other: &Measurement) -> (r: bool)
        ensures
            r == self.spec_temperature_roughly_equal(*other),
    {
        let dt: i128 = self.temperature as i128 - other.temperature as i128;
        -(ROUGH_TOLERANCE as i128) < dt && dt < ROUGH_TOLERANCE as i128
    }
}

} // verus!
