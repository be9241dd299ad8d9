//! What a successful read hands back.

use vstd::prelude::*;

verus! {

/// The largest humidity a sensor can report, in tenths of a percent.
pub const MAX_HUMIDITY: u16 = 1000;

/// One measurement of humidity and temperature.
///
/// Both quantities are kept in tenths, the finest step either sensor reports,
/// so that no rounding takes place: a humidity of 60.0 % is 600 and a
/// temperature of -26.6 degrees is -266. A `Reading` only ever comes out of
/// [`decode`](crate::decode::decode), and its humidity never exceeds 100 %.
#[derive(Debug, Clone, Copy, PartialEq, Eq)]
pub struct Reading {
    humidity: u16,
    temperature: i16,
}

impl Reading {
    #[verifier::type_invariant]
    spec fn humidity_is_a_percentage(self) -> bool {
        self.humidity <= MAX_HUMIDITY
    }

    /// The reading that holds exactly these two values.
    pub closed spec fn of(humidity: int, temperature: int) -> Reading {
        Reading { humidity: humidity as u16, temperature: temperature as i16 }
    }

    pub closed spec fn spec_humidity(&self) -> u16 {
        self.humidity
    }

    pub closed spec fn spec_temperature(&self) -> i16 {
        self.temperature
    }

    /// A reading is its two values and nothing more.
    pub proof fn lemma_of(humidity: int, temperature: int)
        requires
            0 <= humidity <= u16::MAX,
            i16::MIN <= temperature <= i16::MAX,
        ensures
            Reading::of(humidity, temperature).humidity() == humidity,
            Reading::of(humidity, temperature).temperature() == temperature,
    {
    }

    /// Two readings with the same values are the same reading.
    pub proof fn lemma_same_values(self, other: Reading)
        requires
            self.humidity() == other.humidity(),
            self.temperature() == other.temperature(),
        ensures
            self == other,
    {
    }

    pub(crate) fn new(humidity: u16, temperature: i16) -> (reading: Reading)
        requires
            humidity <= MAX_HUMIDITY,
        ensures
            reading == Reading::of(humidity as int, temperature as int),
    {
        Reading { humidity, temperature }
    }

    /// The relative humidity in tenths of a percent, from 0 to 1000.
    #[verifier::when_used_as_spec(spec_humidity)]
    pub fn humidity(&self) -> (humidity: u16)
        ensures
            humidity == self.humidity(),
            humidity <= MAX_HUMIDITY,
    {
        proof {
            use_type_invariant(self);
        }
        self.humidity
    }

    /// The temperature in tenths of a degree Celsius.
    #[verifier::when_used_as_spec(spec_temperature)]
    pub fn temperature(&self) -> (temperature: i16)
        ensures
            temperature == self.temperature(),
    {
        self.temperature
    }
}

} // verus!
