//! Protocol core for DHT11 and DHT22 humidity and temperature sensors.
//!
//! These sensors talk over a single data line with pulses whose widths are a
//! few tens of microseconds. This crate holds everything that decides what
//! happens on that line and what the received bits mean; it never touches
//! hardware itself. A caller owns the pin, the delay source and the interrupt
//! guard, carries out the [`Action`]s that a [`Dht`] asks for one at a time,
//! and reports each outcome back.

pub mod decode;
pub mod error;
pub mod frame;
pub mod interrupt;
pub mod protocol;
pub mod reading;
pub mod session;

pub use decode::{decode, Variant};
pub use error::DhtError;
pub use interrupt::{InterruptControl, NoopInterruptControl};
pub use protocol::{Action, Dht, Step};
pub use reading::Reading;
