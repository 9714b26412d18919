//! The ways in which a bus operation fails.

use vstd::prelude::*;

verus! {

/// Why an operation on the bus did not complete.
#[derive(Clone, Copy, Debug, PartialEq, Eq, Structural)]
pub enum Error {
    /// A reset was answered by no device. Callers treat this as an empty bus.
    NoPresencePulse,
    /// The line did not return to idle in time, or the pin could not be driven
    /// or sampled.
    BusError,
    /// The checksum of an address or of a scratchpad image does not match.
    CrcMismatch,
    /// An address does not carry the family code of the thermal sensor.
    UnexpectedDevice,
    /// During a search the devices answered in a way that no set of devices
    /// on an undisturbed bus can: one was added or removed in mid search.
    UnexpectedResponse,
}

} // verus!
