//! From a received frame to a reading.
//!
//! The two sensors share the framing and the checksum and differ in how the
//! four data bytes encode the measurement.

use vstd::prelude::*;
use crate::error::DhtError;
use crate::frame::{checksum, checksum_of};
use crate::reading::{Reading, MAX_HUMIDITY};

verus! {

/// Which sensor is on the line.
#[derive(Debug, Clone, Copy, PartialEq, Eq)]
pub enum Variant {
    /// Reports whole percent and whole degrees, both never negative.
    Dht11,
    /// Reports tenths of a percent and tenths of a degree, with a sign.
    Dht22,
}

/// The humidity that a frame encodes, in tenths of a percent.
///
/// A DHT11 sends whole percent in byte 0. A DHT22 sends tenths as a sixteen-bit
/// number, high byte first, in bytes 0 and 1.
pub open spec fn humidity_tenths(variant: Variant, frame: Seq<u8>) -> int {
    match variant {
        Variant::Dht11 => 10 * frame[0],
        Variant::Dht22 => 256 * frame[0] + frame[1],
    }
}

/// The temperature that a frame encodes, in tenths of a degree Celsius.
///
/// A DHT11 sends whole degrees in byte 2. A DHT22 sends tenths in bytes 2 and
/// 3 as a sign and a magnitude: the top bit of byte 2 is the sign, the
/// remaining fifteen bits the magnitude, high byte first.
pub open spec fn temperature_tenths(variant: Variant, frame: Seq<u8>) -> int {
    match variant {
        Variant::Dht11 => 10 * frame[2],
        Variant::Dht22 => {
            let magnitude = 256 * (frame[2] % 128) + frame[3];
            if frame[2] >= 128 {
                -magnitude
            } else {
                magnitude
            }
        },
    }
}

/// What a received frame amounts to.
///
/// A frame whose last byte is not the checksum of the other four is damaged.
/// An intact frame that encodes more than 100 % humidity is invalid. Any other
/// frame yields the reading that it encodes.
pub open spec fn decoded<HE>(variant: Variant, frame: Seq<u8>) -> Result<Reading, DhtError<HE>> {
    if frame[4] != checksum(frame) {
        Err(DhtError::ChecksumMismatch(frame[4], checksum(frame)))
    } else if humidity_tenths(variant, frame) > MAX_HUMIDITY {
        Err(DhtError::InvalidData)
    } else {
        Ok(Reading::of(humidity_tenths(variant, frame), temperature_tenths(variant, frame)))
    }
}

proof fn lemma_sixteen_bits(high: u8, low: u8)
    by (bit_vector)
    ensures
        ((high as u16) << 8) | (low as u16) == 256 * high + low,
        (((high & 0x7f) as u16) << 8) | (low as u16) == 256 * (high % 128) + low,
        (((high & 0x7f) as u16) << 8) | (low as u16) <= 0x7fff,
        (high & 0x80 != 0) == (high >= 128),
{
}

impl Variant {
    /// Reads humidity and temperature out of the data bytes of a frame, both
    /// in tenths, without judging the frame.
    pub fn parse_data(self, frame: &[u8; 5]) -> (values: (u16, i16))
        ensures
            values.0 == humidity_tenths(self, frame@),
            values.1 == temperature_tenths(self, frame@),
    {
        match self {
            Variant::Dht11 => (frame[0] as u16 * 10, frame[2] as i16 * 10),
            Variant::Dht22 => {
                proof {
                    lemma_sixteen_bits(frame[0], frame[1]);
                    lemma_sixteen_bits(frame[2], frame[3]);
                }
                let humidity: u16 = ((frame[0] as u16) << 8) | frame[1] as u16;
                let magnitude: u16 = (((frame[2] & 0x7f) as u16) << 8) | frame[3] as u16;
                let temperature: i16 = if frame[2] & 0x80 != 0 {
                    -(magnitude as i16)
                } else {
                    magnitude as i16
                };
                (humidity, temperature)
            },
        }
    }
}

/// Judges a received frame: checks its checksum, decodes it for the given
/// sensor, and checks that the humidity is one that can occur.
///
/// A frame whose checksum does not match is refused with both checksums, the
/// one sent and the one computed. A frame that is intact yields a reading
/// with exactly the values it encodes if its humidity is at most 100 %, the
/// bound included, and is refused as invalid otherwise.
pub fn decode<HE>(variant: Variant, frame: &[u8; 5]) -> (verdict: Result<Reading, DhtError<HE>>)
    ensures
        verdict == decoded::<HE>(variant, frame@),
        frame@[4] != checksum(frame@) ==> verdict == Err::<Reading, DhtError<HE>>(
            DhtError::ChecksumMismatch(frame@[4], checksum(frame@)),
        ),
        frame@[4] == checksum(frame@) && humidity_tenths(variant, frame@) > MAX_HUMIDITY ==> verdict
            == Err::<Reading, DhtError<HE>>(DhtError::InvalidData),
        frame@[4] == checksum(frame@) && humidity_tenths(variant, frame@) <= MAX_HUMIDITY ==> (
        verdict matches Ok(reading) && reading.humidity() == humidity_tenths(variant, frame@)
            && reading.temperature() == temperature_tenths(variant, frame@)),
{
    let sum = checksum_of(frame);
    if frame[4] != sum {
        return Err(DhtError::ChecksumMismatch(frame[4], sum));
    }
    let (humidity, temperature) = variant.parse_data(frame);
    if humidity > MAX_HUMIDITY {
        return Err(DhtError::InvalidData);
    }
    proof {
        Reading::lemma_of(humidity as int, temperature as int);
    }
    Ok(Reading::new(humidity, temperature))
}

} // verus!
