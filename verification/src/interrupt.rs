//! Keeping interrupts out of the way while the line is polled.

use vstd::prelude::*;

verus! {

/// Masks and unmasks whatever could preempt the caller during a read.
///
/// The pulses of the sensor are told apart by counting microseconds, so an
/// interrupt that fires in the middle of a read can turn a short pulse into a
/// long one. Implement this for the platform at hand, or use
/// [`NoopInterruptControl`] where nothing needs masking.
pub trait InterruptControl {
    /// Lets interrupts through again.
    fn enable_interrupts(&mut self);

    /// Holds interrupts back.
    fn disable_interrupts(&mut self);
}

/// An [`InterruptControl`] that leaves interrupts alone.
pub struct NoopInterruptControl;

impl InterruptControl for NoopInterruptControl {
    fn enable_interrupts(&mut self)
        ensures
            *final(self) == *old(self),
    {
    }

    fn disable_interrupts(&mut self)
        ensures
            *final(self) == *old(self),
    {
    }
}

} // verus!
