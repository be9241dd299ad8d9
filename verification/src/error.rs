//! The ways in which a read can fail.

use vstd::prelude::*;

verus! {

/// Why a read produced no [`Reading`](crate::reading::Reading).
///
/// `HE` is the error type of the pin that the caller drives.
#[derive(Debug, Clone, PartialEq, Eq)]
pub enum DhtError<HE> {
    /// The sensor never acknowledged the request: it is absent or miswired.
    NotPresent,
    /// The frame arrived damaged. Holds the checksum byte that the sensor sent,
    /// then the checksum computed over the four data bytes.
    ChecksumMismatch(u8, u8),
    /// The frame is intact but encodes a humidity outside 0 % to 100 %.
    InvalidData,
    /// The sensor acknowledged and then stalled while sending a bit.
    Timeout,
    /// The pin itself reported a failure, handed on unchanged.
    PinError(HE),
}

impl<HE> From<HE> for DhtError<HE> {
    /// Wraps a failure of the pin.
    fn from(error: HE) -> (wrapped: Self) {
        DhtError::PinError(error)
    }
}

impl<HE> vstd::std_specs::convert::FromSpecImpl<HE> for DhtError<HE> {
    open spec fn obeys_from_spec() -> bool {
        true
    }

    open spec fn from_spec(error: HE) -> Self {
        DhtError::PinError(error)
    }
}

} // verus!
